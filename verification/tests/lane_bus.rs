use arc700::soc::lane_bus::{
    LaneBus, CAL_CTRL_EVEN, CAL_CTRL_ODD, CAL_DONE_BIT, CAL_STAT_EVEN, CAL_STAT_ODD,
    LANE_PAGE_COUNT,
};

fn stage(bus: &mut LaneBus, operand: u32) {
    bus.write_data(operand);
    bus.write_cmd(0x1002_002A);
}

fn lane_write_txn(bus: &mut LaneBus, reg: u8, val: u8) {
    stage(bus, ((val as u32) << 8) | reg as u32);
    bus.arm_transaction(0x0000_0013);
}

fn lane_read_txn(bus: &mut LaneBus, reg: u8) -> u8 {
    stage(bus, reg as u32);
    bus.arm_transaction(0x0000_000B);
    bus.arm_transaction(0x0040_0009);
    bus.write_cmd(0x0C02_002A);
    bus.read_data() as u8
}

#[test]
fn lane_registers_round_trip_through_the_transport() {
    let mut bus = LaneBus::new(0x0100_0118, 2);
    lane_write_txn(&mut bus, 0xA1, 0x07);
    assert_eq!(lane_read_txn(&mut bus, 0xA1), 0x07);
    assert_eq!(lane_read_txn(&mut bus, 0xA2), 0x00);
}

#[test]
fn each_page_keeps_its_own_register_file() {
    let mut bus = LaneBus::new(0x0100_0118, 2);

    bus.set_page(2);
    lane_write_txn(&mut bus, 0x16, 0x0E);
    bus.set_page(1);
    lane_write_txn(&mut bus, 0x16, 0x00);

    bus.set_page(2);
    assert_eq!(lane_read_txn(&mut bus, 0x16), 0x0E);
    bus.set_page(1);
    assert_eq!(lane_read_txn(&mut bus, 0x16), 0x00);
}

#[test]
fn a_page_does_not_see_what_another_page_wrote() {
    let mut bus = LaneBus::new(0x0100_0118, 2);
    bus.set_page(1);
    lane_write_txn(&mut bus, 0x16, 0x0E);
    bus.set_page(2);
    assert_eq!(lane_read_txn(&mut bus, 0x16), 0x00);
    assert_eq!(bus.lane_reg_on_page(1, 0x16), 0x0E);
}

#[test]
fn a_converged_calibration_does_not_leak_to_another_page() {
    let mut bus = LaneBus::new(0x0100_0118, 2);
    bus.set_cal_immediate(true);

    bus.set_page(2);
    lane_write_txn(&mut bus, CAL_CTRL_EVEN, 0x07);
    assert_eq!(lane_read_txn(&mut bus, CAL_STAT_EVEN) & CAL_DONE_BIT, CAL_DONE_BIT);

    bus.set_page(1);
    assert_eq!(lane_read_txn(&mut bus, CAL_STAT_EVEN) & CAL_DONE_BIT, 0);
}

#[test]
fn an_out_of_range_page_is_refused_not_wrapped() {
    let mut bus = LaneBus::new(0x0100_0118, 2);
    bus.set_page(2);
    bus.set_page(LANE_PAGE_COUNT + 2);
    assert_eq!(bus.page(), 2);
}

#[test]
fn a_pointer_set_moves_no_data() {
    let mut bus = LaneBus::new(0x0100_0118, 2);
    lane_write_txn(&mut bus, 0xA1, 0x07);
    stage(&mut bus, 0xA1);
    bus.arm_transaction(0x0000_000B);
    assert_eq!(bus.reg(0x100), 0);
}

#[test]
fn calibration_done_requires_arming_and_converging() {
    let mut bus = LaneBus::new(0x0100_0118, 2);
    bus.set_cal_reads_to_done(4);

    for _ in 0..16 {
        assert_eq!(lane_read_txn(&mut bus, CAL_STAT_EVEN) & CAL_DONE_BIT, 0);
    }

    lane_write_txn(&mut bus, CAL_CTRL_EVEN, 0x07);
    for i in 1..4 {
        assert_eq!(
            lane_read_txn(&mut bus, CAL_STAT_EVEN) & CAL_DONE_BIT,
            0,
            "converged early, on read {i}"
        );
    }
    assert_eq!(lane_read_txn(&mut bus, CAL_STAT_EVEN) & CAL_DONE_BIT, CAL_DONE_BIT);
    assert_eq!(lane_read_txn(&mut bus, CAL_STAT_EVEN) & CAL_DONE_BIT, CAL_DONE_BIT);
}

#[test]
fn enable_without_the_cold_bit_does_not_converge() {
    let mut bus = LaneBus::new(0x0100_0118, 2);
    bus.set_cal_reads_to_done(2);
    lane_write_txn(&mut bus, CAL_CTRL_EVEN, 0x03);
    for _ in 0..8 {
        assert_eq!(lane_read_txn(&mut bus, CAL_STAT_EVEN) & CAL_DONE_BIT, 0);
    }
}

#[test]
fn the_two_parities_are_independent() {
    let mut bus = LaneBus::new(0x0100_0118, 2);
    bus.set_cal_reads_to_done(1);
    lane_write_txn(&mut bus, CAL_CTRL_ODD, 0x07);
    assert_eq!(lane_read_txn(&mut bus, CAL_STAT_ODD) & CAL_DONE_BIT, CAL_DONE_BIT);
    assert_eq!(lane_read_txn(&mut bus, CAL_STAT_EVEN) & CAL_DONE_BIT, 0);
}

#[test]
fn the_hardware_never_clears_the_cold_bit() {
    let mut bus = LaneBus::new(0x0100_0118, 2);
    bus.set_cal_reads_to_done(1);
    lane_write_txn(&mut bus, CAL_CTRL_EVEN, 0x07);
    assert_eq!(lane_read_txn(&mut bus, CAL_CTRL_EVEN), 0x07);
    lane_read_txn(&mut bus, CAL_STAT_EVEN);
    assert_eq!(lane_read_txn(&mut bus, CAL_CTRL_EVEN), 0x07, "hardware cleared bit 2");
    lane_write_txn(&mut bus, CAL_CTRL_EVEN, 0x03);
    assert_eq!(lane_read_txn(&mut bus, CAL_CTRL_EVEN), 0x03);
    assert_eq!(lane_read_txn(&mut bus, CAL_STAT_EVEN) & CAL_DONE_BIT, CAL_DONE_BIT);
}

#[test]
fn clearing_enable_retracts_the_status_bit() {
    let mut bus = LaneBus::new(0x0100_0118, 2);
    bus.set_cal_reads_to_done(1);
    lane_write_txn(&mut bus, CAL_CTRL_EVEN, 0x07);
    lane_read_txn(&mut bus, CAL_STAT_EVEN);
    assert_eq!(lane_read_txn(&mut bus, CAL_STAT_EVEN) & CAL_DONE_BIT, CAL_DONE_BIT);
    lane_write_txn(&mut bus, CAL_CTRL_EVEN, 0x00);
    assert_eq!(lane_read_txn(&mut bus, CAL_STAT_EVEN) & CAL_DONE_BIT, 0);
}

#[test]
fn reset_clears_the_lane_registers_and_the_engines() {
    let mut bus = LaneBus::new(0x0100_0118, 2);
    bus.set_cal_reads_to_done(1);
    lane_write_txn(&mut bus, CAL_CTRL_EVEN, 0x07);
    lane_read_txn(&mut bus, CAL_STAT_EVEN);
    bus.reset();
    assert_eq!(bus.lane_reg(CAL_CTRL_EVEN), 0);
    assert_eq!(lane_read_txn(&mut bus, CAL_STAT_EVEN) & CAL_DONE_BIT, 0);
}

#[test]
fn a_command_reads_back_once_then_without_its_flags() {
    let mut bus = LaneBus::new(0x0100_0118, 2);
    bus.write_cmd(0x1002_002A);
    assert_eq!((bus.peek_cmd(), bus.peek_cmd()), (0x1002_002A, 0x1002_002A));
    assert_eq!((bus.read_cmd(), bus.read_cmd(), bus.read_cmd()), (0x1002_002A, 0x0002_002A, 0x0002_002A));
    bus.write_cmd(0x1002_002A);
    bus.write_cmd(0x07FF_FFFF);
    assert_eq!((bus.read_cmd(), bus.read_cmd()), (0x07FF_FFFF, 0x07FF_FFFF));
}

#[test]
fn the_power_on_value_reaches_the_command_word() {
    let mut bus = LaneBus::new(0x0100_0118, 2);
    bus.apply_init(&[(0x160, 0x0001_5000), (0x16C, 7), (0x170, 8), (0x60, 9)]);
    assert_eq!((bus.peek_cmd(), bus.read_data(), bus.raw_stat()), (0x0001_5000, 7, 8));
}
