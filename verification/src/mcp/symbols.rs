//! Names and comments a user gives to addresses.

use std::collections::HashMap;

use vstd::prelude::*;

use crate::mcp::handler::{
    AddCommentParams, AddSymbolParams, LoadSymbolsFileResult, OkResult, SymbolsResult,
};
use crate::mcp::hex::{hex_word, parse_addr_str};
use crate::mcp::json::{node_number, node_text, read_json, read_member, JsonNode, JsonView};
use crate::order::sorted_keys;

verus! {

broadcast use vstd::std_specs::hash::group_hash_axioms;

/// What a user has noted of addresses.
#[derive(Debug)]
pub struct Annotations {
    pub symbols: HashMap<u32, String>,
    pub comments: HashMap<u32, String>,
}

/// Texts by address, as values.
pub open spec fn texts_by_address(m: Map<u32, String>) -> Map<u32, Seq<char>> {
    Map::new(|k: u32| m.dom().contains(k), |k: u32| m[k]@)
}

/// Annotations, as values.
pub struct AnnotationState {
    pub symbols: Map<u32, Seq<char>>,
    pub comments: Map<u32, Seq<char>>,
}

impl View for Annotations {
    type V = AnnotationState;

    open spec fn view(&self) -> AnnotationState {
        AnnotationState {
            symbols: texts_by_address(self.symbols@),
            comments: texts_by_address(self.comments@),
        }
    }
}

impl Annotations {
    /// Nothing noted yet.
    pub fn new() -> (r: Self)
        ensures
            r@ == (AnnotationState { symbols: Map::empty(), comments: Map::empty() }),
    {
        let r = Annotations { symbols: HashMap::new(), comments: HashMap::new() };
        assert(r@.symbols =~= Map::empty());
        assert(r@.comments =~= Map::empty());
        r
    }

    fn enter(&mut self, address: u32, name: String)
        ensures
            final(self)@ == (AnnotationState {
                symbols: old(self)@.symbols.insert(address, name@),
                ..old(self)@
            }),
    {
        let ghost before = self@;
        self.symbols.insert(address, name);
        assert(self@.symbols =~= before.symbols.insert(address, name@));
        assert(self@.comments =~= before.comments);
    }

    /// Name an address.
    pub fn add_symbol(&mut self, params: AddSymbolParams) -> (r: OkResult)
        ensures
            r.ok,
            final(self)@ == (AnnotationState {
                symbols: old(self)@.symbols.insert(params.address.0, params.name@),
                ..old(self)@
            }),
    {
        self.enter(params.address.0, params.name);
        OkResult { ok: true }
    }

    /// Comment on an address.
    pub fn add_comment(&mut self, params: AddCommentParams) -> (r: OkResult)
        ensures
            r.ok,
            final(self)@ == (AnnotationState {
                comments: old(self)@.comments.insert(params.address.0, params.comment@),
                ..old(self)@
            }),
    {
        let ghost before = self@;
        self.comments.insert(params.address.0, params.comment);
        assert(self@.comments =~= before.comments.insert(params.address.0, params.comment@));
        assert(self@.symbols =~= before.symbols);
        OkResult { ok: true }
    }

    /// Show the names by address.
    pub fn list_symbols(&self) -> (r: SymbolsResult)
        ensures
            exists|keys: Seq<u32>|
                crate::order::lists(keys, self@.symbols.dom()) && #[trigger] lists_names(
                    r.symbols@,
                    keys,
                    self@.symbols,
                ),
    {
        let keys = sorted_keys(&self.symbols);
        let mut out: Vec<(String, String)> = Vec::new();
        for i in 0..keys.len()
            invariant
                crate::order::lists(keys@, self.symbols@.dom()),
                lists_names(out@, keys@.take(i as int), self@.symbols),
        {
            assert(self.symbols@.dom().contains(keys@[i as int]));
            if let Some(name) = self.symbols.get(&keys[i]) {
                out.push((hex_word(keys[i]), name.clone()));
            }
        }
        assert(keys@.take(keys@.len() as int) =~= keys@);
        assert(self@.symbols.dom() =~= self.symbols@.dom());
        assert(crate::order::lists(keys@, self@.symbols.dom()));
        let r = SymbolsResult { symbols: out };
        assert(lists_names(r.symbols@, keys@, self@.symbols));
        r
    }
}

/// Whether a list shows the names of addresses, in their order.
pub open spec fn lists_names(
    shown: Seq<(String, String)>,
    keys: Seq<u32>,
    names: Map<u32, Seq<char>>,
) -> bool {
    &&& shown.len() == keys.len()
    &&& forall|i: int|
        0 <= i < keys.len() ==> (#[trigger] shown[i]).0@ == crate::mcp::hex::word_text(keys[i])
            && shown[i].1@ == names[keys[i]]
}

/// The address a text stands for.
pub open spec fn address_in(text: Seq<char>) -> Option<u32> {
    match crate::number::prefixed_number(crate::number::trimmed(text), 0xFFFF_FFFF) {
        Some(v) => Some(v as u32),
        None => None,
    }
}

/// An address with its name, if both are there.
pub open spec fn paired(address: Option<u32>, name: Option<Seq<char>>) -> Option<
    (u32, Seq<char>),
> {
    match (address, name) {
        (Some(a), Some(n)) => Some((a, n)),
        _ => None,
    }
}

/// The address a JSON value stands for: text, or else a number whose upper
/// bits are cut off.
pub open spec fn address_of_view(v: Result<JsonView, Seq<char>>) -> Option<u32> {
    match crate::mcp::json::text_in(v) {
        Some(s) => address_in(s),
        None => match crate::mcp::json::number_in(v) {
            Some(n) => Some(n as u32),
            None => None,
        },
    }
}

/// The address of a JSON value.
pub fn address_of_node(v: &Result<JsonNode, String>) -> (r: Option<u32>)
    ensures
        r == address_of_view(crate::mcp::json::outcome(*v)),
{
    match node_text(v) {
        Some(s) => parse_addr_str(s.as_str()),
        None => match node_number(v) {
            Some(n) => Some(#[verifier::truncate] (n as u32)),
            None => None,
        },
    }
}

/// A symbol written as a member of an object: its address, and JSON text.
pub open spec fn member_symbol(key: Seq<char>, value: Seq<char>) -> Option<(u32, Seq<char>)> {
    paired(address_in(key), crate::mcp::json::text_in(crate::mcp::json::json_view(value)))
}

/// A symbol written as an object of its own.
pub open spec fn item_symbol(item: Seq<char>) -> Option<(u32, Seq<char>)> {
    match crate::mcp::json::json_view(item) {
        Ok(JsonView::Object(m)) => paired(
            address_of_view(crate::mcp::json::member_view(m, "address"@)),
            crate::mcp::json::text_in(crate::mcp::json::member_view(m, "name"@)),
        ),
        _ => None,
    }
}

/// The symbols a document holds, one for each of its entries that is one.
pub open spec fn document_symbols(doc: JsonView) -> Seq<Option<(u32, Seq<char>)>> {
    match doc {
        JsonView::Object(m) => Seq::new(m.len(), |i: int| member_symbol(m[i].0, m[i].1)),
        JsonView::List(l) => Seq::new(l.len(), |i: int| item_symbol(l[i])),
        _ => Seq::empty(),
    }
}

/// Names after symbols went in, the last one of an address standing.
pub open spec fn entered(names: Map<u32, Seq<char>>, found: Seq<Option<(u32, Seq<char>)>>) -> Map<
    u32,
    Seq<char>,
>
    decreases found.len(),
{
    if found.len() == 0 {
        names
    } else {
        let before = entered(names, found.drop_last());
        match found.last() {
            Some((address, name)) => before.insert(address, name),
            None => before,
        }
    }
}

/// How many entries are symbols.
pub open spec fn symbol_count(found: Seq<Option<(u32, Seq<char>)>>) -> nat
    decreases found.len(),
{
    if found.len() == 0 {
        0
    } else if found.last() is Some {
        symbol_count(found.drop_last()) + 1
    } else {
        symbol_count(found.drop_last())
    }
}

/// A symbol that was found, as values.
pub open spec fn symbol_view(s: Option<(u32, String)>) -> Option<(u32, Seq<char>)> {
    match s {
        Some((a, n)) => Some((a, n@)),
        None => None,
    }
}

fn pair(address: Option<u32>, name: Option<String>) -> (r: Option<(u32, String)>)
    ensures
        symbol_view(r) == paired(address, crate::text::opt_text(name)),
{
    match (address, name) {
        (Some(a), Some(n)) => Some((a, n)),
        _ => None,
    }
}

fn read_member_symbol(key: &str, value: &str) -> (r: Option<(u32, String)>)
    ensures
        symbol_view(r) == member_symbol(key@, value@),
{
    pair(parse_addr_str(key), node_text(&read_json(value)))
}

fn read_item_symbol(item: &str) -> (r: Option<(u32, String)>)
    ensures
        symbol_view(r) == item_symbol(item@),
{
    match read_json(item) {
        Ok(JsonNode::Object(m)) => pair(
            address_of_node(&read_member(&m, "address")),
            node_text(&read_member(&m, "name")),
        ),
        _ => None,
    }
}

impl Annotations {
    fn enter_symbol(&mut self, symbol: Option<(u32, String)>) -> (r: usize)
        ensures
            r == (if symbol is Some {
                1int
            } else {
                0
            }),
            final(self)@.comments == old(self)@.comments,
            final(self)@.symbols == (match symbol_view(symbol) {
                Some((address, name)) => old(self)@.symbols.insert(address, name),
                None => old(self)@.symbols,
            }),
    {
        match symbol {
            Some((address, name)) => {
                self.enter(address, name);
                1
            },
            None => 0,
        }
    }

    fn enter_members(&mut self, m: &Vec<(String, String)>) -> (r: usize)
        ensures
            final(self)@.comments == old(self)@.comments,
            final(self)@.symbols == entered(
                old(self)@.symbols,
                document_symbols(JsonView::Object(crate::mcp::json::members_of(m@))),
            ),
            r == symbol_count(
                document_symbols(JsonView::Object(crate::mcp::json::members_of(m@))),
            ),
    {
        let ghost found = document_symbols(JsonView::Object(crate::mcp::json::members_of(m@)));
        let ghost start = self@;
        let mut count: usize = 0;
        assert(found.take(0) =~= Seq::empty());
        for i in 0..m.len()
            invariant
                start == old(self)@,
                found == document_symbols(JsonView::Object(crate::mcp::json::members_of(m@))),
                self@.comments == start.comments,
                self@.symbols == entered(start.symbols, found.take(i as int)),
                count == symbol_count(found.take(i as int)),
                count <= i,
        {
            proof {
                assert(found.take(i + 1).drop_last() =~= found.take(i as int));
                assert(found.take(i + 1).last() == found[i as int]);
            }
            let symbol = read_member_symbol(m[i].0.as_str(), m[i].1.as_str());
            let one: usize = self.enter_symbol(symbol);
            count = count + one;
        }
        assert(found.take(found.len() as int) =~= found);
        count
    }

    fn enter_items(&mut self, l: &Vec<String>) -> (r: usize)
        ensures
            final(self)@.comments == old(self)@.comments,
            final(self)@.symbols == entered(
                old(self)@.symbols,
                document_symbols(JsonView::List(crate::soc::access_log::texts(l@))),
            ),
            r == symbol_count(
                document_symbols(JsonView::List(crate::soc::access_log::texts(l@))),
            ),
    {
        let ghost found = document_symbols(JsonView::List(crate::soc::access_log::texts(l@)));
        let ghost start = self@;
        let mut count: usize = 0;
        assert(found.take(0) =~= Seq::empty());
        for i in 0..l.len()
            invariant
                start == old(self)@,
                found == document_symbols(JsonView::List(crate::soc::access_log::texts(l@))),
                self@.comments == start.comments,
                self@.symbols == entered(start.symbols, found.take(i as int)),
                count == symbol_count(found.take(i as int)),
                count <= i,
        {
            proof {
                assert(found.take(i + 1).drop_last() =~= found.take(i as int));
                assert(found.take(i + 1).last() == found[i as int]);
            }
            let symbol = read_item_symbol(l[i].as_str());
            let one: usize = self.enter_symbol(symbol);
            count = count + one;
        }
        assert(found.take(found.len() as int) =~= found);
        count
    }

    /// Take in the symbols of a document that was read.
    pub fn load_document(&mut self, doc: Result<JsonNode, String>) -> (r: LoadSymbolsFileResult)
        ensures
            final(self)@.comments == old(self)@.comments,
            match crate::mcp::json::outcome(doc) {
                Ok(view) => {
                    &&& r.ok
                    &&& r.error is None
                    &&& r.loaded == symbol_count(document_symbols(view))
                    &&& final(self)@.symbols == entered(
                        old(self)@.symbols,
                        document_symbols(view),
                    )
                },
                Err(e) => {
                    &&& !r.ok
                    &&& r.loaded == 0
                    &&& crate::text::opt_text(r.error) == Some("parse: "@ + e)
                    &&& final(self)@.symbols == old(self)@.symbols
                },
            },
    {
        match doc {
            Err(e) => {
                let mut error = String::from_str("parse: ");
                error.append(e.as_str());
                LoadSymbolsFileResult { ok: false, loaded: 0, error: Some(error) }
            },
            Ok(JsonNode::Object(m)) => {
                let loaded: usize = self.enter_members(&m);
                LoadSymbolsFileResult { ok: true, loaded, error: None }
            },
            Ok(JsonNode::List(l)) => {
                let loaded: usize = self.enter_items(&l);
                LoadSymbolsFileResult { ok: true, loaded, error: None }
            },
            Ok(_) => LoadSymbolsFileResult { ok: true, loaded: 0, error: None },
        }
    }

    /// Take in the symbols of a document: an object from addresses to names,
    /// or a list of objects with an address and a name.
    pub fn load_symbols(&mut self, content: &str) -> (r: LoadSymbolsFileResult)
        ensures
            final(self)@.comments == old(self)@.comments,
            match crate::mcp::json::json_view(content@) {
                Ok(view) => {
                    &&& r.ok
                    &&& r.error is None
                    &&& r.loaded == symbol_count(document_symbols(view))
                    &&& final(self)@.symbols == entered(
                        old(self)@.symbols,
                        document_symbols(view),
                    )
                },
                Err(e) => {
                    &&& !r.ok
                    &&& r.loaded == 0
                    &&& crate::text::opt_text(r.error) == Some("parse: "@ + e)
                    &&& final(self)@.symbols == old(self)@.symbols
                },
            },
    {
        self.load_document(read_json(content))
    }
}

/// Answer that a file with symbols could not be read.
pub fn unreadable_symbols(path: &str, why: &str) -> (r: LoadSymbolsFileResult)
    ensures
        !r.ok,
        r.loaded == 0,
        crate::text::opt_text(r.error) == Some("read "@ + path@ + ": "@ + why@),
{
    let mut error = String::from_str("read ");
    error.append(path);
    error.append(": ");
    error.append(why);
    LoadSymbolsFileResult { ok: false, loaded: 0, error: Some(error) }
}

/// A symbol that went in last stands.
pub proof fn law_last_symbol_stands(
    names: Map<u32, Seq<char>>,
    found: Seq<Option<(u32, Seq<char>)>>,
    address: u32,
    name: Seq<char>,
)
    ensures
        entered(names, found.push(Some((address, name))))[address] == name,
        symbol_count(found.push(Some((address, name)))) == symbol_count(found) + 1,
{
    assert(found.push(Some((address, name))).drop_last() =~= found);
}

/// Symbols that go in leave the names of other addresses, and entries that are
/// none change nothing.
pub proof fn law_symbols_leave_other_names(
    names: Map<u32, Seq<char>>,
    found: Seq<Option<(u32, Seq<char>)>>,
    address: u32,
    name: Seq<char>,
    other: u32,
)
    ensures
        ({
            let after = entered(names, found.push(Some((address, name))));
            let before = entered(names, found);
            other != address ==> after.dom().contains(other) == before.dom().contains(other) && (
            before.dom().contains(other) ==> after[other] == before[other])
        }),
        entered(names, found.push(None)) == entered(names, found),
        symbol_count(found.push(None)) == symbol_count(found),
        entered(names, Seq::empty()) == names,
        symbol_count(Seq::empty()) == 0,
{
    assert(found.push(Some((address, name))).drop_last() =~= found);
    assert(found.push(None).drop_last() =~= found);
}

/// An address that is shown reads back, with or without space around it.
pub proof fn law_shown_address_reads_back(v: u32)
    ensures
        address_in(crate::mcp::hex::word_text(v)) == Some(v),
{
    crate::mcp::hex::law_shown_word_reads_back(v);
    let text = crate::mcp::hex::word_text(v);
    reveal_strlit("0x");
    crate::text::law_fixed_width_is_kept(v as nat, 8, true);
    crate::text::law_digits_are_the_usual_ones(v as nat % 16, true);
    assert(text.last() == crate::text::hex_digit(v as nat % 16, true));
    assert(!crate::number::is_space(text[0]) && !crate::number::is_space(text.last()));
    crate::number::law_trimmed_text_has_no_space_around_it(text, ' ');
}

/// A symbol takes an address and a name; where one is missing there is none.
pub proof fn law_symbol_takes_address_and_name(address: Option<u32>, name: Option<Seq<char>>)
    ensures
        address is Some && name is Some ==> paired(address, name) == Some((address->0, name->0)),
        address is None || name is None ==> paired(address, name) is None,
{
}

} // verus!
