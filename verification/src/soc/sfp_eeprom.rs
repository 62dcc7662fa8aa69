//! The memory of the pluggable optical module behind the I2C master: the
//! identity page (`0xA0`), the diagnostics page (`0xA2`) and the live
//! diagnostic readings.
//!
//! The pages ship with placeholder contents; real ones are loaded from
//! outside.

use vstd::prelude::*;

verus! {

/// Where the identity page keeps its 16-byte text fields.
pub const VENDOR_NAME_AT: usize = 20;

pub const PART_NUMBER_AT: usize = 40;

pub const SERIAL_NUMBER_AT: usize = 68;

/// Live diagnostic readings, in the units of the module's registers.
#[derive(Clone, Copy, Debug, PartialEq, Eq, Structural)]
pub struct Ddm {
    /// Temperature in 1/256 degree Celsius.
    pub temperature_c256: i16,
    /// Supply voltage in 100 microvolt.
    pub vcc_100uv: u16,
    /// Laser bias in 2 microampere.
    pub tx_bias_2ua: u16,
    /// Transmit power in 0.1 microwatt.
    pub tx_power_01uw: u16,
    /// Receive power in 0.1 microwatt.
    pub rx_power_01uw: u16,
}

/// The module, as values.
#[verifier::ext_equal]
pub struct SfpState {
    pub a0: Seq<u8>,
    pub a2: Seq<u8>,
    pub ddm: Ddm,
}

impl SfpState {
    /// The placeholder module: the identity page counts up, the diagnostics
    /// page counts down, and every reading is zero.
    pub open spec fn placeholder() -> SfpState {
        SfpState {
            a0: Seq::new(256, |i: int| i as u8),
            a2: Seq::new(256, |i: int| (255 - i) as u8),
            ddm: Ddm {
                temperature_c256: 0,
                vcc_100uv: 0,
                tx_bias_2ua: 0,
                tx_power_01uw: 0,
                rx_power_01uw: 0,
            },
        }
    }

    /// The page a device number selects.
    pub open spec fn page(self, device: u8) -> Seq<u8> {
        if device == 0 {
            self.a0
        } else {
            self.a2
        }
    }

    /// The big-endian word at a pointer; the pointer wraps at the page end.
    pub open spec fn word(self, device: u8, ptr: u16) -> u32 {
        let p = self.page(device);
        ((p[ptr as int % 256] as u32) << 24) | ((p[(ptr + 1) % 256] as u32) << 16) | ((p[(ptr + 2)
            % 256] as u32) << 8) | (p[(ptr + 3) % 256] as u32)
    }

    /// The module after a text field of the identity page is replaced.
    pub open spec fn with_field(self, at: int, text: Seq<u8>) -> SfpState {
        SfpState {
            a0: Seq::new(
                self.a0.len(),
                |i: int|
                    if at <= i < at + 16 {
                        text[i - at]
                    } else {
                        self.a0[i]
                    },
            ),
            ..self
        }
    }
}

#[derive(Debug)]
pub struct SfpEeprom {
    pub a0: Vec<u8>,
    pub a2: Vec<u8>,
    pub ddm: Ddm,
}

impl View for SfpEeprom {
    type V = SfpState;

    open spec fn view(&self) -> SfpState {
        SfpState { a0: self.a0@, a2: self.a2@, ddm: self.ddm }
    }
}

impl Clone for SfpEeprom {
    fn clone(&self) -> (r: Self)
        ensures
            r@ == self@,
    {
        let r = SfpEeprom {
            a0: self.a0.clone(),
            a2: self.a2.clone(),
            ddm: self.ddm,
        };
        assert(r.a0@ =~= self.a0@);
        assert(r.a2@ =~= self.a2@);
        assert(r@ =~= self@);
        r
    }
}

impl SfpEeprom {
    pub open spec fn wf(&self) -> bool {
        self.a0@.len() == 256 && self.a2@.len() == 256
    }

    pub fn new_default() -> (r: Self)
        ensures
            r.wf(),
            r@ == SfpState::placeholder(),
    {
        let mut a0: Vec<u8> = Vec::new();
        let mut a2: Vec<u8> = Vec::new();
        for i in 0..256usize
            invariant
                a0@ == Seq::new(i as nat, |k: int| k as u8),
                a2@ == Seq::new(i as nat, |k: int| (255 - k) as u8),
        {
            a0.push(i as u8);
            a2.push((255 - i) as u8);
            assert(a0@ =~= Seq::new((i + 1) as nat, |k: int| k as u8));
            assert(a2@ =~= Seq::new((i + 1) as nat, |k: int| (255 - k) as u8));
        }
        SfpEeprom {
            a0,
            a2,
            ddm: Ddm {
                temperature_c256: 0,
                vcc_100uv: 0,
                tx_bias_2ua: 0,
                tx_power_01uw: 0,
                rx_power_01uw: 0,
            },
        }
    }

    /// Go back to the contents the module ships with.
    pub fn reset_to_snapshot(&mut self)
        ensures
            final(self).wf(),
            final(self)@ == SfpState::placeholder(),
    {
        *self = Self::new_default();
    }

    pub fn read_word(&self, device: u8, ptr: u16) -> (r: u32)
        requires
            self.wf(),
        ensures
            r == self@.word(device, ptr),
    {
        let p: &Vec<u8> = if device == 0 {
            &self.a0
        } else {
            &self.a2
        };
        let at: usize = ptr as usize;
        ((p[at % 256] as u32) << 24) | ((p[(at + 1) % 256] as u32) << 16) | ((p[(at + 2)
            % 256] as u32) << 8) | (p[(at + 3) % 256] as u32)
    }

    fn field(&self, at: usize) -> (r: [u8; 16])
        requires
            self.wf(),
            at + 16 <= 256,
        ensures
            r@ == self@.a0.subrange(at as int, at + 16),
    {
        let mut out: [u8; 16] = [0u8; 16];
        for i in 0..16usize
            invariant
                self.wf(),
                at + 16 <= 256,
                forall|k: int| 0 <= k < i ==> #[trigger] out@[k] == self@.a0[at + k],
        {
            out[i] = self.a0[at + i];
        }
        assert(out@ =~= self@.a0.subrange(at as int, at + 16));
        out
    }

    fn set_field(&mut self, at: usize, text: [u8; 16])
        requires
            old(self).wf(),
            at + 16 <= 256,
        ensures
            final(self).wf(),
            final(self)@ == old(self)@.with_field(at as int, text@),
    {
        for i in 0..16usize
            invariant
                self.wf(),
                at + 16 <= 256,
                self.a2@ == old(self).a2@,
                self.ddm == old(self).ddm,
                forall|k: int|
                    0 <= k < 256 ==> #[trigger] self.a0@[k] == (if at <= k < at + i {
                        text@[k - at]
                    } else {
                        old(self).a0@[k]
                    }),
        {
            self.a0[at + i] = text[i];
        }
        assert(self@.a0 =~= old(self)@.with_field(at as int, text@).a0);
    }

    pub fn vendor_name(&self) -> (r: [u8; 16])
        requires
            self.wf(),
        ensures
            r@ == self@.a0.subrange(20, 36),
    {
        self.field(VENDOR_NAME_AT)
    }

    pub fn part_number(&self) -> (r: [u8; 16])
        requires
            self.wf(),
        ensures
            r@ == self@.a0.subrange(40, 56),
    {
        self.field(PART_NUMBER_AT)
    }

    pub fn serial_number(&self) -> (r: [u8; 16])
        requires
            self.wf(),
        ensures
            r@ == self@.a0.subrange(68, 84),
    {
        self.field(SERIAL_NUMBER_AT)
    }

    pub fn set_vendor_name(&mut self, text: [u8; 16])
        requires
            old(self).wf(),
        ensures
            final(self).wf(),
            final(self)@ == old(self)@.with_field(20, text@),
    {
        self.set_field(VENDOR_NAME_AT, text);
    }

    pub fn set_part_number(&mut self, text: [u8; 16])
        requires
            old(self).wf(),
        ensures
            final(self).wf(),
            final(self)@ == old(self)@.with_field(40, text@),
    {
        self.set_field(PART_NUMBER_AT, text);
    }

    pub fn set_serial_number(&mut self, text: [u8; 16])
        requires
            old(self).wf(),
        ensures
            final(self).wf(),
            final(self)@ == old(self)@.with_field(68, text@),
    {
        self.set_field(SERIAL_NUMBER_AT, text);
    }
}

/// A word is four octets of its page in a row, the first on top. Device 0 is the
/// identity page, any other the diagnostics page, and the pointer wraps at 256.
pub proof fn law_word_is_four_octets(s: SfpState, device: u8, ptr: u16)
    ensures
        ({
            let p = if device == 0 {
                s.a0
            } else {
                s.a2
            };
            s.word(device, ptr) == p[ptr as int % 256] * 0x100_0000 + p[(ptr + 1) % 256] * 0x1_0000
                + p[(ptr + 2) % 256] * 0x100 + p[(ptr + 3) % 256]
        }),
{
    let p = s.page(device);
    crate::bits::lemma_octets(
        p[ptr as int % 256],
        p[(ptr + 1) % 256],
        p[(ptr + 2) % 256],
        p[(ptr + 3) % 256],
        0,
    );
}

/// The module ships with pages that count: octet `i` of the identity page is
/// `i`, and the two pages add up to 255 everywhere.
pub proof fn law_placeholder_pages_count(i: int)
    requires
        0 <= i < 256,
    ensures
        SfpState::placeholder().a0.len() == 256,
        SfpState::placeholder().a2.len() == 256,
        SfpState::placeholder().a0[i] == i,
        SfpState::placeholder().a0[i] + SfpState::placeholder().a2[i] == 255,
{
}

} // verus!
