use arc700::peripherals::spi_flash::{
    SpiFlash, CMD_PP, CMD_RDID, CMD_RDSR, CMD_REMS, CMD_WRDI, CMD_WREN, SR_WEL,
};

#[test]
fn test_jedec_id() {
    let mut flash = SpiFlash::new();
    let rx = flash.execute_fifo_command(&[CMD_RDID], 3);
    assert_eq!(rx, vec![0xC2, 0x20, 0x16]);
}

#[test]
fn test_rems() {
    let mut flash = SpiFlash::new();
    let rx = flash.execute_fifo_command(&[CMD_REMS, 0, 0, 0], 2);
    assert_eq!(rx[0], 0xC2);
    assert_eq!(rx[1], 0x15);
}

#[test]
fn test_status_register() {
    let mut flash = SpiFlash::new();
    let rx = flash.execute_fifo_command(&[CMD_RDSR], 1);
    assert_eq!(rx[0], 0x00);

    flash.execute_fifo_command(&[CMD_WREN], 0);
    let rx = flash.execute_fifo_command(&[CMD_RDSR], 1);
    assert_eq!(rx[0], SR_WEL);

    flash.execute_fifo_command(&[CMD_WRDI], 0);
    let rx = flash.execute_fifo_command(&[CMD_RDSR], 1);
    assert_eq!(rx[0], 0x00);
}

#[test]
fn test_read_erased() {
    let flash = SpiFlash::new();
    let data = flash.dma_read(0, 4);
    assert_eq!(data, vec![0xFF, 0xFF, 0xFF, 0xFF]);
}

#[test]
fn test_page_program_and_read() {
    let mut flash = SpiFlash::new();
    flash.execute_fifo_command(&[CMD_WREN], 0);
    flash.execute_fifo_command(&[CMD_PP, 0x00, 0x00, 0x00, 0xDE, 0xAD, 0xBE, 0xEF], 0);
    let data = flash.dma_read(0, 4);
    assert_eq!(data, vec![0xDE, 0xAD, 0xBE, 0xEF]);
}
