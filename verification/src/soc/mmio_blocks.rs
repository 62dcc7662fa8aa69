//! Names of the registers on the bus.

use vstd::prelude::*;

verus! {

/// The number of registers with a name.
pub const REG_COUNT: usize = 192;

/// Where each register lies, in ascending order.
pub const REG_ADDRS: [u32; 192] = [
    0x00FC_1014,
    0x00FC_1015,
    0x00FC_1016,
    0x00FC_1017,
    0x00FC_1018,
    0x00FC_1019,
    0x00FC_101C,
    0x0100_0000,
    0x0100_0008,
    0x0100_000C,
    0x0100_0014,
    0x0100_001C,
    0x0100_0020,
    0x0100_0024,
    0x0100_0038,
    0x0100_003C,
    0x0100_0040,
    0x0100_0048,
    0x0100_004C,
    0x0100_0050,
    0x0100_0054,
    0x0100_0060,
    0x0100_0064,
    0x0100_0080,
    0x0100_0084,
    0x0100_0088,
    0x0100_008C,
    0x0100_0090,
    0x0100_0092,
    0x0100_0094,
    0x0100_0098,
    0x0100_009C,
    0x0100_00A4,
    0x0100_0120,
    0x0100_0140,
    0x0100_0150,
    0x0100_0180,
    0x0100_0194,
    0x0100_0198,
    0x0100_01A0,
    0x0100_01A4,
    0x0100_01A8,
    0x0100_01AC,
    0x0100_01B0,
    0x0100_01B4,
    0x0100_01C0,
    0x0100_01D4,
    0x0100_01D8,
    0x0100_01E8,
    0x0100_01EC,
    0x0100_01F0,
    0x0100_01F4,
    0x0100_0200,
    0x0100_020C,
    0x0100_0210,
    0x0100_021C,
    0x0100_0224,
    0x0100_0228,
    0x0100_022C,
    0x0100_0230,
    0x0100_0324,
    0x0100_0400,
    0x0100_0404,
    0x0100_0408,
    0x0100_040C,
    0x0100_0410,
    0x0100_0420,
    0x0100_0424,
    0x0100_043C,
    0x0100_04D0,
    0x0100_0520,
    0x0100_05E0,
    0x0100_0680,
    0x0100_0C00,
    0x0100_0C04,
    0x0100_0C0C,
    0x0100_0C10,
    0x0100_0C14,
    0x0100_0C18,
    0x0100_0C1C,
    0x0100_0C20,
    0x0100_0C24,
    0x0100_0C28,
    0x0100_0C2C,
    0x0100_0C30,
    0x0100_0C74,
    0x0100_0D40,
    0x0100_0D44,
    0x0100_0D48,
    0x0100_0D4C,
    0x0100_0D50,
    0x0100_0D54,
    0x0100_0D58,
    0x0100_0D5C,
    0x0100_0D60,
    0x0100_0D64,
    0x0100_0D68,
    0x0100_0D6C,
    0x0100_0D70,
    0x0100_0D74,
    0x0100_0D78,
    0x0100_0D94,
    0x0100_0D9C,
    0x0100_0E00,
    0x0100_0E04,
    0x0100_0E0C,
    0x0100_0E40,
    0x0100_0E44,
    0x0100_0E5C,
    0x0100_0EC0,
    0x0100_0F80,
    0x0100_0F84,
    0x0100_0FB0,
    0x0100_0FB4,
    0x0100_0FFC,
    0x0100_1000,
    0x0100_1004,
    0x0100_1008,
    0x0100_1014,
    0x0100_101C,
    0x0100_1020,
    0x0100_1024,
    0x0100_102C,
    0x0100_1030,
    0x0100_103C,
    0x0100_1040,
    0x0100_1050,
    0x0100_10C4,
    0x0100_10D0,
    0x0100_10D4,
    0x0100_10D8,
    0x0100_10E0,
    0x0100_10E4,
    0x0100_10E8,
    0x0100_1180,
    0x0100_1240,
    0x0100_1280,
    0x0100_1284,
    0x0100_1288,
    0x0100_128C,
    0x0100_1290,
    0x0100_12BC,
    0x0100_12C0,
    0x0100_12C4,
    0x0100_12C8,
    0x0100_1340,
    0x0100_1348,
    0x0100_1380,
    0x0100_1384,
    0x0100_1400,
    0x0100_1404,
    0x0100_1410,
    0x0100_1428,
    0x0100_142C,
    0x0100_143C,
    0x0100_1480,
    0x0100_15C0,
    0x0100_15C4,
    0x0100_15D4,
    0x0100_15D8,
    0x0100_216C,
    0x0100_2400,
    0x0100_2404,
    0x0100_2410,
    0x0100_2484,
    0x0100_2488,
    0x0100_24C0,
    0x0100_24C8,
    0x0100_24CC,
    0x0100_24D0,
    0x0100_24D4,
    0x0100_24D8,
    0x0100_2500,
    0x0100_2584,
    0x0100_2640,
    0x0100_2644,
    0x0100_2648,
    0x0100_264C,
    0x0100_2804,
    0x0100_2C00,
    0x0100_2D00,
    0x0100_2D04,
    0x0100_2D18,
    0x0100_3000,
    0x0100_300C,
    0x0100_3010,
    0x0100_3014,
    0x0100_3018,
    0x0100_301C,
    0x0100_3600,
    0x0100_3604,
    0x0100_3800,
];

/// The block each belongs to.
pub const REG_BLOCK_IDS: [u32; 192] = [
    47,
    47,
    47,
    47,
    47,
    47,
    47,
    49,
    39,
    40,
    39,
    39,
    39,
    39,
    39,
    68,
    39,
    50,
    50,
    45,
    45,
    73,
    73,
    38,
    38,
    38,
    38,
    90040,
    90040,
    90040,
    90040,
    90040,
    90006,
    69,
    90001,
    90001,
    5,
    44,
    5,
    5,
    5,
    5,
    5,
    5,
    6,
    5,
    44,
    5,
    5,
    5,
    5,
    6,
    9,
    9,
    9,
    10,
    9,
    9,
    9,
    9,
    52,
    3,
    3,
    3,
    3,
    3,
    12,
    12,
    24,
    26,
    1402,
    4801,
    4801,
    15,
    15,
    13,
    13,
    13,
    15,
    15,
    15,
    15,
    15,
    15,
    15,
    1401,
    90070,
    90070,
    90070,
    90070,
    90070,
    90070,
    90070,
    90070,
    90070,
    90070,
    90070,
    90070,
    90070,
    90070,
    90070,
    25,
    25,
    15,
    4,
    7,
    7,
    7,
    25,
    4803,
    15,
    15,
    25,
    25,
    1,
    1,
    2,
    1,
    1,
    1,
    1,
    1,
    1,
    1,
    16,
    1,
    1,
    2,
    16,
    16,
    16,
    16,
    16,
    16,
    19,
    2,
    34,
    34,
    34,
    34,
    34,
    2,
    21,
    21,
    21,
    20,
    20,
    55,
    55,
    1801,
    36,
    1801,
    1802,
    1802,
    74,
    37,
    1803,
    1803,
    35,
    35,
    90007,
    57,
    62,
    5602,
    54,
    54,
    54,
    62,
    62,
    62,
    62,
    62,
    90004,
    66,
    90005,
    61,
    61,
    61,
    5601,
    11,
    65,
    65,
    65,
    8,
    8,
    8,
    8,
    8,
    8,
    46,
    46,
    67,
];

/// The name of that block.
pub const REG_BLOCK_NAMES: [&'static str; 192] = [
    "Clock Divider / NCO Config",
    "Clock Divider / NCO Config",
    "Clock Divider / NCO Config",
    "Clock Divider / NCO Config",
    "Clock Divider / NCO Config",
    "Clock Divider / NCO Config",
    "Clock Divider / NCO Config",
    "HW State Monitoring Table",
    "SerDes Global Control",
    "SerDes Lane1 MMIO Configuration",
    "SerDes Global Control",
    "SerDes Global Control",
    "SerDes Global Control",
    "SerDes Global Control",
    "SerDes Global Control",
    "EPON Link Enable Controller",
    "SerDes Global Control",
    "I2C / SFP Serial Bus Controller",
    "I2C / SFP Serial Bus Controller",
    "SerDes Speed Control",
    "SerDes Speed Control",
    "MDIO Clause 45 Controller",
    "MDIO Clause 45 Controller",
    "IRQ Priority Controller",
    "IRQ Priority Controller",
    "IRQ Priority Controller",
    "IRQ Priority Controller",
    "IRQ Configuration Shadow Copy",
    "IRQ Configuration Shadow Copy",
    "IRQ Configuration Shadow Copy",
    "IRQ Configuration Shadow Copy",
    "IRQ Configuration Shadow Copy",
    "Lane Sync Status Register",
    "MPCP Slot Config Queue-to-Pin",
    "Lane State Table (DAT_ram_20032cc8)",
    "Lane State Table (DAT_ram_20032cc8)",
    "SerDes Lane Configuration",
    "SerDes Link Status MMIO",
    "SerDes Lane Configuration",
    "SerDes Lane Configuration",
    "SerDes Lane Configuration",
    "SerDes Lane Configuration",
    "SerDes Lane Configuration",
    "SerDes Lane Configuration",
    "SerDes PHY Status",
    "SerDes Lane Configuration",
    "SerDes Link Status MMIO",
    "SerDes Lane Configuration",
    "SerDes Lane Configuration",
    "SerDes Lane Configuration",
    "SerDes Lane Configuration",
    "SerDes PHY Status",
    "Peripheral Bus Controller (SPI + MDIO)",
    "Peripheral Bus Controller (SPI + MDIO)",
    "Peripheral Bus Controller (SPI + MDIO)",
    "SPI Flash FIFO Controller",
    "Peripheral Bus Controller (SPI + MDIO)",
    "Peripheral Bus Controller (SPI + MDIO)",
    "Peripheral Bus Controller (SPI + MDIO)",
    "Peripheral Bus Controller (SPI + MDIO)",
    "MPCP TX Rate Configuration",
    "PHY 1G (Gigabit Ethernet PHY)",
    "PHY 1G (Gigabit Ethernet PHY)",
    "PHY 1G (Gigabit Ethernet PHY)",
    "PHY 1G (Gigabit Ethernet PHY)",
    "PHY 1G (Gigabit Ethernet PHY)",
    "MACsec Key Engine",
    "MACsec Key Engine",
    "PON TX Config Table",
    "SerDes Auto RX Block",
    "MACsec SA PN Overflow -- 1G Variant",
    "MACsec SA Key Slot Counter Block -- 10G SA Counter",
    "MACsec SA Key Slot Counter Block -- 10G SA Counter",
    "MACsec SA Programming 10G",
    "MACsec SA Programming 10G",
    "MACsec PN Threshold Engine",
    "MACsec PN Threshold Engine",
    "MACsec PN Threshold Engine",
    "MACsec SA Programming 10G",
    "MACsec SA Programming 10G",
    "MACsec SA Programming 10G",
    "MACsec SA Programming 10G",
    "MACsec SA Programming 10G",
    "MACsec SA Programming 10G",
    "MACsec SA Programming 10G",
    "MACsec SA PN Overflow -- 10G Variant",
    "PON LLID RX Config",
    "PON LLID RX Config",
    "PON LLID RX Config",
    "PON LLID RX Config",
    "PON LLID RX Config",
    "PON LLID RX Config",
    "PON LLID RX Config",
    "PON LLID RX Config",
    "PON LLID RX Config",
    "PON LLID RX Config",
    "PON LLID RX Config",
    "PON LLID RX Config",
    "PON LLID RX Config",
    "PON LLID RX Config",
    "PON LLID RX Config",
    "SerDes 10G TX Block",
    "SerDes 10G TX Block",
    "MACsec SA Programming 10G",
    "PHY 10G / UNI 10G Link Status",
    "PON Lane Enable / Speed",
    "PON Lane Enable / Speed",
    "PON Lane Enable / Speed",
    "SerDes 10G TX Block",
    "MACsec SA Key Slot Counter Block -- 1G MACsec Coun",
    "MACsec SA Programming 10G",
    "MACsec SA Programming 10G",
    "SerDes 10G TX Block",
    "SerDes 10G TX Block",
    "EPON MAC -- Bloc principal",
    "EPON MAC -- Bloc principal",
    "EPON RX Configuration",
    "EPON MAC -- Bloc principal",
    "EPON MAC -- Bloc principal",
    "EPON MAC -- Bloc principal",
    "EPON MAC -- Bloc principal",
    "EPON MAC -- Bloc principal",
    "EPON MAC -- Bloc principal",
    "EPON MAC -- Bloc principal",
    "EPON Grant Timing",
    "EPON MAC -- Bloc principal",
    "EPON MAC -- Bloc principal",
    "EPON RX Configuration",
    "EPON Grant Timing",
    "EPON Grant Timing",
    "EPON Grant Timing",
    "EPON Grant Timing",
    "EPON Grant Timing",
    "EPON Grant Timing",
    "Grant Queue Enable Table",
    "EPON RX Configuration",
    "EPON Counter Engine",
    "EPON Counter Engine",
    "EPON Counter Engine",
    "EPON Counter Engine",
    "EPON Counter Engine",
    "EPON RX Configuration",
    "MPCP Direction / Lane State",
    "MPCP Direction / Lane State",
    "MPCP Direction / Lane State",
    "EPON LLID Enable Table",
    "EPON LLID Enable Table",
    "EPON Timing Config Block",
    "EPON Timing Config Block",
    "Channel DMA / IRQ Controller -- Config Channel",
    "DMA Channel Enable Register",
    "Channel DMA / IRQ Controller -- Config Channel",
    "Channel DMA / IRQ Controller -- IRQ Channel",
    "Channel DMA / IRQ Controller -- IRQ Channel",
    "DMA Channel Queue Drain Register",
    "DMA Queue Descriptor Table",
    "Channel DMA / IRQ Controller -- Mailbox",
    "Channel DMA / IRQ Controller -- Mailbox",
    "DMA Channel Counter Block",
    "DMA Channel Counter Block",
    "DMA Status Registers",
    "Lane HW Reset Controller",
    "SerDes MDIO Event Controller",
    "Fatal Error Status / Mask -- Fatal Error Mask",
    "SerDes Lane HW Enable",
    "SerDes Lane HW Enable",
    "SerDes Lane HW Enable",
    "SerDes MDIO Event Controller",
    "SerDes MDIO Event Controller",
    "SerDes MDIO Event Controller",
    "SerDes MDIO Event Controller",
    "SerDes MDIO Event Controller",
    "SerDes Lane Speed Mode HW (DAT_ram_20035b68)",
    "MDIO RX FIFO Level",
    "Lane Config Write (DAT_ram_20035db4)",
    "MPCP Slot HW Command Engine",
    "MPCP Slot HW Command Engine",
    "MPCP Slot HW Command Engine",
    "Fatal Error Status / Mask -- Fatal Error Status",
    "MACsec Control",
    "SerDes Lane Mode Controller",
    "SerDes Lane Mode Controller",
    "SerDes Lane Mode Controller",
    "VLAN / EtherType Configuration",
    "VLAN / EtherType Configuration",
    "VLAN / EtherType Configuration",
    "VLAN / EtherType Configuration",
    "VLAN / EtherType Configuration",
    "VLAN / EtherType Configuration",
    "Filter/Mask Controller",
    "Filter/Mask Controller",
    "Channel Config Register",
];

/// The name of each register.
pub const REG_NAMES: [&'static str; 192] = [
    "CLK_DIV_COMMAND",
    "CLK_CTRL_FIELD1",
    "CLK_CTRL_FIELD2",
    "CLK_READY_FLAG",
    "CLK_DIV_VALUE_LOW",
    "CLK_CTRL_FIELD5",
    "CLK_DIV_VALUE_HIGH",
    "HW_STATE_REG_N",
    "SERDES_LANE0_1_ENABLE",
    "LANE1_MODE_CONFIG",
    "MAILBOX_DMA_CLEAR_0",
    "MAILBOX_DMA_CLEAR_1",
    "MPCP_SLOT_CONFIG",
    "EPON_LINK_ENABLE_LOW",
    "EPON_LINK_ENABLE_BITMAP",
    "LLID_ENABLE_CLEAR",
    "I2C_SERIAL_BUS_CTRL",
    "I2C_ACK_CTRL",
    "I2C_CLK_TOGGLE",
    "CHIP_ID_LOW16",
    "SPEED_CTRL_PARAM",
    "MDIO_COMMAND",
    "MDIO_DATA",
    "IRQ_PRIORITY_N",
    "IRQ_PRIORITY_1",
    "IRQ_PRIORITY_2",
    "IRQ_PRIORITY_3",
    "IRQ_CONFIG_SHADOW",
    "WRITE_READY_STATUS",
    "IRQ_CONFIG_SHADOW_1",
    "IRQ_CONFIG_SHADOW_2",
    "IRQ_CONFIG_SHADOW_3",
    "LANE0_SYNC",
    "QUEUE_PIN_MAP_I",
    "LANE_CMD_CONFIG",
    "LANE_CMD_WRITE",
    "PON_LANE_INDEX",
    "LANE0_LINK_LOCK",
    "PON_LINK_STATUS_TRIGGER",
    "LLID_BROADCAST_PARAM1",
    "LLID_BROADCAST_PARAM0",
    "SERDES_LANE1_BYTE_ENABLE",
    "PON_LANE_CONFIG_GRP0",
    "PON_LANE_CONFIG_GRP1",
    "PON_PHY_STATUS",
    "UNI_LANE_INDEX",
    "LANE2_LINK_LOCK",
    "UNI_LINK_STATUS_TRIGGER",
    "SERDES_LANE2_BYTE_ENABLE",
    "UNI_LANE_CONFIG_GRP0",
    "UNI_LANE_CONFIG_GRP1",
    "UNI_PHY_STATUS",
    "SPI_SPEED_MODE",
    "SPI_BUSY",
    "SPI_DATA_BUFFER",
    "SPI_FIFO_READ_DATA",
    "SPI_CONFIG",
    "MDIO_BUSY",
    "MDIO_DATA_LOW",
    "MDIO_DATA_HIGH",
    "MPCP_TX_RATE_VALUE",
    "UNI_PHY_CONTROL",
    "UNI_PHY_CONFIG_A",
    "UNI_PHY_CONFIG_C",
    "UNI_PHY_CONFIG_B",
    "UNI_1G_LINK_STATUS",
    "KEY_ENGINE_BUSY",
    "KEY_DATA",
    "LLID_TX_CONFIG",
    "RX_AUTO_ADJUST",
    "SA_1G_PN_OVERFLOW",
    "SA_1G_SLOT_COUNTER",
    "SA_10G_SLOT_COUNTER",
    "SA_MODE_CONFIG",
    "SA_CONFIG_2",
    "PN_THRESHOLD_BUSY",
    "PN_THRESHOLD_DATA",
    "PN_THRESHOLD_RESULT",
    "SA_KEY_WORD_1",
    "SA_KEY_WORD_2",
    "SA_KEY_WORD_3",
    "SA_NONCE_0",
    "SA_NONCE_1",
    "SA_TRIGGER",
    "SA_EXTRA_PARAM",
    "SA_10G_PN_OVERFLOW",
    "LLID_RX_CONFIG_16",
    "LLID_RX_CONFIG_17",
    "LLID_RX_CONFIG_18",
    "LLID_RX_CONFIG_19",
    "LLID_RX_CONFIG_20",
    "LLID_RX_CONFIG_21",
    "LLID_RX_CONFIG_22",
    "LLID_RX_CONFIG_23",
    "LLID_RX_CONFIG_24",
    "LLID_RX_CONFIG_25",
    "LLID_RX_CONFIG_26",
    "LLID_RX_CONFIG_27",
    "LLID_RX_CONFIG_28",
    "LLID_RX_CONFIG_29",
    "LLID_RX_CONFIG_30",
    "TX_10G_INIT_FLAG",
    "TX_10G_MODE_FLAG",
    "SA_ENABLE_REGISTER",
    "UNI_10G_LINK_STATUS",
    "PON_ENABLE_BIT2",
    "PON_SPEED_MODE",
    "PON_SPEED_PARAM",
    "TX_LANE_PARAM",
    "MACSEC_1G_CTR_I",
    "MACSEC_CHANNEL_ENABLE",
    "MACSEC_CHANNEL_RESET",
    "TX_TIMING",
    "TX_MODE_SELECT",
    "CHIP_ID",
    "CHIP_REV",
    "RX_FILTER_MODE",
    "LLID_CAPTURE_MASK",
    "LLID_ACTIVE_BITMAP",
    "LLID_MASK_CONTROL",
    "LLID_COUNTER_MASK",
    "TX_GRANT_MASK",
    "RX_GRANT_MASK",
    "IRQ_MASK",
    "GRANT_TIMING_OFFSET",
    "EPON_STATUS",
    "ACTIVE_FLAGS",
    "SPEED_LIMIT",
    "GRANT_INTERVAL_1",
    "GRANT_INTERVAL_2",
    "GRANT_WINDOW_SIZE",
    "GRANT_TIMING_LOW",
    "GRANT_RETRY_COUNT",
    "GRANT_TIMEOUT",
    "QUEUE_ENABLE",
    "RX_EXTENDED_CONFIG",
    "CTR_DIRECTION_FLAG",
    "CTR_REGISTER_INDEX",
    "CTR_DATA_HIGH",
    "CTR_DATA_LOW",
    "CTR_DIRECT_READ_I",
    "LLID_ENABLE_TRIGGER",
    "BW_WINDOW_REG",
    "LLID_MAC_CTRL",
    "LLID_MAC_DATA_1",
    "LLID_ENABLE",
    "LLID_ENABLE_1",
    "TIMING_PARAM_WORD1",
    "TIMING_PARAM_WORD0",
    "CHAN_CONFIG",
    "CHAN_PACKET_ENABLE",
    "CHAN_IRQ_STATUS",
    "CHAN_IRQ_ENABLE",
    "CHAN_IRQ_PENDING",
    "SUBCHAN_INDEX",
    "QUEUE_DESCRIPTOR",
    "MAILBOX_BUSY",
    "MAILBOX_DATA",
    "CHAN_CTR_LATCH_COMMAND",
    "CHAN_CTR_RESULT",
    "CHAN_BUSY_FLAGS",
    "LANE_RESET_BITS",
    "EVENT_STATUS",
    "LANE_ID_CONFIG",
    "LANE_SPEED_MODE",
    "SPEED_CTRL_FIELD",
    "LANE_HW_ENABLE",
    "EVENT_DATA_0",
    "EVENT_DATA_1",
    "EVENT_DATA_2",
    "EVENT_DATA_3",
    "EVENT_DATA_4",
    "SPEED_MODE_HW",
    "RX_FIFO_LEVEL",
    "LANE_CONFIG_REG",
    "SLOT_CMD_BUSY",
    "SLOT_DATA_0",
    "SLOT_DATA_1",
    "FATAL_ERROR_STATUS",
    "MACSEC_CTRL",
    "MODE_ENABLE",
    "CIPHER_PARAMS",
    "TIMING_CONFIG",
    "VLAN_CTRL",
    "CUSTOM_VLAN_ETHERTYPE",
    "INDIRECT_CMD",
    "INDIRECT_DATA_2",
    "INDIRECT_DATA_1",
    "INDIRECT_DATA_0",
    "FILTER_CHANNEL_MASK",
    "FILTER_TABLE_PTR",
    "CHAN_ADDR_COUNT",
];

/// How each is accessed.
pub const REG_ACCESS: [&'static str; 192] = [
    "W",
    "W",
    "W",
    "R",
    "W",
    "W",
    "W",
    "R",
    "RMW",
    "RMW",
    "W",
    "W",
    "W",
    "RMW",
    "RMW",
    "W",
    "RMW",
    "RMW",
    "RMW",
    "R",
    "W",
    "W",
    "RW",
    "RMW",
    "RMW",
    "RMW",
    "RMW",
    "W",
    "R",
    "W",
    "W",
    "W",
    "R",
    "RMW",
    "RW",
    "RW",
    "RMW",
    "R",
    "W",
    "W",
    "W",
    "RMW",
    "RMW",
    "RMW",
    "R",
    "RMW",
    "R",
    "W",
    "RMW",
    "RMW",
    "RMW",
    "R",
    "RMW",
    "R",
    "W",
    "R",
    "W",
    "R",
    "W",
    "W",
    "W",
    "RMW",
    "W",
    "W",
    "RMW",
    "RW",
    "RMW",
    "W",
    "RW",
    "RMW",
    "R",
    "R",
    "R",
    "RMW",
    "W",
    "R",
    "W",
    "R",
    "W",
    "W",
    "W",
    "W",
    "W",
    "W",
    "W",
    "R",
    "W",
    "W",
    "W",
    "W",
    "W",
    "W",
    "W",
    "W",
    "W",
    "W",
    "W",
    "W",
    "W",
    "W",
    "W",
    "W",
    "W",
    "RMW",
    "RW",
    "RMW",
    "RMW",
    "W",
    "RMW",
    "R",
    "RMW",
    "W",
    "W",
    "W",
    "R",
    "R",
    "RMW",
    "RMW",
    "RMW",
    "W",
    "RMW",
    "RMW",
    "RMW",
    "RMW",
    "W",
    "RW",
    "RW",
    "W",
    "W",
    "W",
    "W",
    "RMW",
    "W",
    "W",
    "RMW",
    "W",
    "W",
    "W",
    "R",
    "R",
    "R",
    "W",
    "W",
    "W",
    "W",
    "RMW",
    "RMW",
    "W",
    "W",
    "RMW",
    "RMW",
    "RW",
    "RMW",
    "RMW",
    "RW",
    "RW",
    "R",
    "W",
    "W",
    "R",
    "R",
    "RMW",
    "RW",
    "R",
    "R",
    "RMW",
    "RMW",
    "R",
    "R",
    "R",
    "R",
    "R",
    "W",
    "R",
    "W",
    "RW",
    "RW",
    "RW",
    "R",
    "RMW",
    "W",
    "W",
    "W",
    "RMW",
    "RMW",
    "RW",
    "RW",
    "RW",
    "RW",
    "RMW",
    "W",
    "RMW",
];

/// What each is for.
pub const REG_DESCS: [&'static str; 192] = [
    "Commande : 0xa4 = set divider",
    "0 pendant init",
    "0 pendant init",
    "1 = clock stable (`serdes_hw_ready_flag`)",
    "Valeur diviseur (octet bas)",
    "0 pendant init",
    "Valeur diviseur (octet haut)",
    "Registre d'etat HW poll periodiquement",
    "OR 0x800000 = enable lanes 0-1 (bus 0)",
    "Configuration mode lane 1 :",
    "Mailbox DMA initialization register 0. Written with 0xFFFFFFFF by mailbox_dma_in",
    "Mailbox DMA initialization register 1. Written with 0xFFFFFFFF by mailbox_dma_in",
    "MPCP slot configuration register. Written with 0x00028124 by mpcp_slot_cfg_init_",
    "EPON link enable bitmap for links 0-17 (low LLID range). Each bit enables/disabl",
    "EPON link enable bitmap for DPoE links 18-33 (high LLID range). Each bit enables",
    "Clear all LLID enables (ecrit 0)",
    "I2C/serial bus control register. Used by serial_bus_read_80bytes to bit-bang I2C",
    "ACK/NACK controle (1=NACK end, 0=ACK continue)",
    "Set puis clear = 1 pulse horloge I2C",
    "16-bit chip ID/revision -- `serdes_read_chip_id_low16`",
    "Parametre additionnel -- `serdes_set_speed_ctrl_reg_0x54`",
    "0x80000 = start read/write cycle",
    "Read: 16-bit result, Write: data/addr",
    "Priorite 3-bit par source IRQ (8 sources/mot)",
    "IRQ priority register for channels 8-15. Each 3-bit field sets priority for one ",
    "IRQ priority register for channels 16-23. Each 3-bit field sets priority for one",
    "IRQ priority register for channels 24-25 (last group, 26 total IRQ sources). Eac",
    "IRQ configuration shadow copy. Written in parallel with DAT_2000e9fc for synchro",
    "Flash write ready status flag (byte)",
    "IRQ configuration shadow register 1. Written in parallel with DCCM IRQ config by",
    "IRQ configuration shadow register 2. Written in parallel with DCCM IRQ config by",
    "IRQ configuration shadow register 3. Written in parallel with DCCM IRQ config by",
    "Lane 0 sync status bit",
    "Champ 5-bit par index de queue",
    "Config command (busy-wait pattern)",
    "Write command, bit 31=busy",
    "Index lane PON (2 bits)",
    "Bit 1 = lane 0 link lock status",
    "Ecrire bit -> attendre 100ms -> lire pour check link",
    "LLID broadcast configuration parameter 1. Written with 0xFFFFFFFF by mpcp_set_ll",
    "LLID broadcast configuration parameter 0. Written with 0xFFFFFFFF by mpcp_set_ll",
    "SerDes lane 1 per-byte enable/status register. Cleared with AND 0xFEFEFEFE (clea",
    "Config lane PON groupe 0",
    "PON lane config group 1. Also used as MPCP pending grants register 1 (odd LLID g",
    "Status PHY direction PON",
    "UNI lane index (bits 21:20). Also used by serdes_lane2_init_pon_rx which clears ",
    "Bit 1 = lane 2 link lock status",
    "Ecrire `0x1000000 << lane_idx` -> wait 100ms -> read",
    "SerDes lane 2 per-byte enable/status register. Cleared with AND 0xFEFEFEFE (clea",
    "Config lane UNI groupe 0 (meme layout que PON)",
    "Config lane UNI groupe 1",
    "Status PHY direction UNI",
    "Mode vitesse SPI (3 bits)",
    "Bit 0 = SPI flash occupee (busy loop)",
    "Buffer donnees SPI (ecriture byte-par-byte dans 32-bit word)",
    "Donnees lues (compare a `DAT_20011cf8` = JEDEC ID attendu)",
    "Registre configuration SPI (ecrit depuis DAT_20011b00)",
    "Bit 0 = MDIO busy (attente dans `hw_mdio_wait_busy`)",
    "Donnees MDIO (low word) -- ecrit avant commande write",
    "Donnees MDIO (high word) -- ecrit avant commande write",
    "Valeur debit TX configurable",
    "Registre de controle principal PHY 1G",
    "Config A -- valeur 0x206 pendant init 1G",
    "PHY 1G config register C. Written with value 0x07 during serdes_init_auto_rx. Lo",
    "Config B",
    "Bit 1 = link UP. Write-1-to-clear (W1C).",
    "Bit 31 = busy (`macsec_hw_wait_key_engine_ready` loop)",
    "Donnees cle (ecrit avant commande)",
    "Config TX par LLID (32 entries, stride 4 bytes, 16 bits useful). Read by hw_pon_",
    "Ajouter 0x1a a valeur existante",
    "Bitmap overflow PN par SA (bit N = SA index N)",
    "Compteur par slot SA (slots >= 8)",
    "Compteur par slot SA (8 slots, slot < 8)",
    "Mode SA bits 0-1 (clear=disable, 3=enable both)",
    "Config secondaire (0xffffffff = all enabled)",
    "Bit 31 = busy (wait while set)",
    "Donnees seuil (ecrit avant commande)",
    "Resultat lecture (apres commande read)",
    "Mot cle SA 1",
    "Mot cle SA 2",
    "Mot cle SA 3 (mode non-compact seulement)",
    "Nonce/IV word 0",
    "Nonce/IV word 1",
    "Bit 1 = start SA programming",
    "Parametre additionnel SA",
    "Bitmap overflow PN par SA (bit N = SA index N)",
    "LLID 16 RX config (cleared to 0 by hw_pon_clear_llid_rx_config). Array: base + (",
    "LLID 17 RX config (cleared to 0 by hw_pon_clear_llid_rx_config)",
    "LLID 18 RX config (cleared to 0 by hw_pon_clear_llid_rx_config)",
    "LLID 19 RX config (cleared to 0 by hw_pon_clear_llid_rx_config)",
    "LLID 20 RX config (cleared to 0 by hw_pon_clear_llid_rx_config)",
    "LLID 21 RX config (cleared to 0 by hw_pon_clear_llid_rx_config)",
    "LLID 22 RX config (cleared to 0 by hw_pon_clear_llid_rx_config)",
    "LLID 23 RX config (cleared to 0 by hw_pon_clear_llid_rx_config)",
    "LLID 24 RX config (cleared to 0 by hw_pon_clear_llid_rx_config)",
    "LLID 25 RX config (cleared to 0 by hw_pon_clear_llid_rx_config)",
    "LLID 26 RX config (cleared to 0 by hw_pon_clear_llid_rx_config)",
    "LLID 27 RX config (cleared to 0 by hw_pon_clear_llid_rx_config)",
    "LLID 28 RX config (cleared to 0 by hw_pon_clear_llid_rx_config)",
    "LLID 29 RX config (cleared to 0 by hw_pon_clear_llid_rx_config)",
    "LLID 30 RX config (cleared to 0 by hw_pon_clear_llid_rx_config)",
    "Ecrire 3 pendant init 10G",
    "Ecrire 1 = mode 10G TX",
    "Save/restore pendant speed change",
    "Bit 6 set = 10G LINK UP. Write 0x40 to clear.",
    "Bit 2 du registre base -- set par `hw_pon_set_enable_bit2`",
    "Bit 0 : 0=10G mode, 1=1G mode",
    "Parametre vitesse : 4=10G, 0x13=1G",
    "Bits [24:16] = 0x11b (lane config)",
    "Compteur MACsec 1G (7 entrees, i=0..6)",
    "Toggle enable channel -- `macsec_hw_10g_set_llid_mask`",
    "Ecrire 0xffffffff = reset all channels",
    "FEC param << 8",
    "Ecrire 3 pendant init 10G",
    "Chip ID register -- BCM4701 = 0x47010203. Lu via `reg 0`.",
    "Chip revision / bond options -- 0xB2110816. Lu via `reg 1`.",
    "Configure via table de lookup selon param_2",
    "Masque capture LLID -- `hw_counter_set/clear_llid_capture_mask`",
    "Bitmap des LLIDs actifs -- `hw_counter_clear_active_llid_bit` clear un bit",
    "Masque LLID control -- `epon_hw_set_llid_mask_control`",
    "Masque compteurs LLID -- set/clear par `hw_counter_set/clear_active_llid_mask`",
    "Masque grants TX -- set par `hw_grant_set_tx_mask`, clear par `hw_grant_clear_tx",
    "Masque grants RX -- set par `hw_grant_set_rx_mask`, clear par `hw_grant_clear_rx",
    "Masque d'interruption EPON -- `epon_hw_set_interrupt_mask_bits` set bits",
    "Offset timing grant = 0x54",
    "**REGISTRE CRITIQUE** -- Statut EPON MAC",
    "Registre flags actifs -- `hw_epon_read_active_flags_reg`",
    "Limite vitesse (11 bits) -- param & 0x7ff",
    "Intervalle grant 1 = 0x100",
    "Intervalle grant 2 = 0x100",
    "Taille fenetre grant = 0x40",
    "Timing low 16 bits = 0xee8",
    "Compteur retry = 2",
    "Timeout grant = 300 (0x12c)",
    "Bit 31 = queue enable (32 queues max)",
    "Configure dans modes non-standard (param_2 dependant)",
    "Bit 4 = direction (0=downstream, 1=upstream)",
    "Index du compteur a lire (calcule par `hw_counter_compute_register_index`)",
    "Partie haute du compteur 64-bit",
    "Partie basse du compteur 64-bit",
    "Lecture directe compteur i (6 entrees, i=0..5)",
    "Ecrire 1 pour declencher enable LLID",
    "Fenetre BW par lane : [end:start] 13+13 bits",
    "LLID MAC address control word. Written with 0x0D during MAC registration. Paired",
    "LLID MAC address data word for channel 1. Same pattern as LLID_MAC_TABLE at 0x58",
    "Bit 31 = LLID enable",
    "LLID enable register channel 1. Same as LLID_ENABLE at 0x5c but for next channel",
    "Mot timing 1 (depuis structure config)",
    "Mot timing 0 (depuis structure config)",
    "Config canal : preserve bit 2, set 0x43",
    "Bit 8 (0x100) = packet processing enable",
    "Channel IRQ status register (per sub-channel bit). Read/write status tracking fo",
    "Bitmap enable IRQ par canal (OR avec mask)",
    "Bitmap pending IRQ par canal (OR avec mask)",
    "Channel queue drain command register. Also read as status: bit 8 indicates drain",
    "Queue descriptor per sub-channel. Write 0 to clear, or write compound config (bi",
    "Bit 31 = mailbox busy",
    "Donnees mailbox (ecriture)",
    "Counter latch command register. Bits contain channel and sub-channel index plus ",
    "Resultat lecture compteur",
    "Per-channel busy status bits",
    "Clear [1:0] puis set [1:0] = reset sequence",
    "Bit 5 = event pending. Ecrire 0x20 pour clear",
    "Lane ID / configuration initiale",
    "Mode vitesse lane (2 bits, read only)",
    "3-bit speed control par demi-lane",
    "1 = enable, 0 = disable",
    "12-bit address + 2-bit type",
    "Donnees evenement (mot 1)",
    "Donnees evenement (mot 2)",
    "Donnees evenement (mot 3)",
    "Donnees evenement (mot 4)",
    "Speed mode hardware (2-bit)",
    "Niveau FIFO RX (12-bit, 0-4095)",
    "Configuration register par lane",
    "1=operation en cours, 0=termine",
    "Data word 0 (write avant cmd, read apres)",
    "Data word 1",
    "Bits 0x105c : si non-zero = erreur fatale",
    "Bit 15 : clear par `macsec_hw_clear_ctrl_bit15` (mask 0xffff7fff)",
    "Enable bit (toggle 0→1 = reset sequence)",
    "Parametres cipher MACsec (si non standard)",
    "Valeur timing/clock depuis FDS record (1,0,6)",
    "Bit 2 : 0=standard 802.1Q (0x8100), 1=custom EtherType",
    "Valeur EtherType personnalisee (16 bits low)",
    "Indirect register access command. Bits [7:0] = register index, bit 30 = write (0",
    "Indirect access data word 2 (MSB of 96-bit payload). Written before write comman",
    "Indirect access data word 1 (middle of 96-bit payload). Written before write com",
    "Indirect access data word 0 (LSB of 96-bit payload). Written before write comman",
    "Clear bits [3:0] puis set a 0xf = enable all",
    "Pointeur table de filtrage (DAT_20011980)",
    "Adresse ou compteur 23-bit",
];

/// What is known of a register.
#[derive(Clone, Copy, Debug)]
pub struct RegInfo {
    pub block_id: u32,
    pub block_name: &'static str,
    pub reg_name: &'static str,
    pub access: &'static str,
    pub desc: &'static str,
}

/// The entry at an index.
pub open spec fn entry(i: int) -> RegInfo {
    RegInfo {
        block_id: REG_BLOCK_IDS@[i],
        block_name: REG_BLOCK_NAMES@[i],
        reg_name: REG_NAMES@[i],
        access: REG_ACCESS@[i],
        desc: REG_DESCS@[i],
    }
}

/// Whether the entry at an index is the first for an address.
pub open spec fn names(i: int, addr: u32) -> bool {
    0 <= i < REG_COUNT && REG_ADDRS@[i] == addr && forall|k: int| 0 <= k < i ==> REG_ADDRS@[k] != addr
}

/// What is known of an address, if anything is.
pub open spec fn known(addr: u32) -> Option<RegInfo> {
    if exists|i: int| names(i, addr) {
        Some(entry(choose|i: int| names(i, addr)))
    } else {
        None
    }
}

/// What is known of an address, if anything is.
pub fn lookup(addr: u32) -> (r: Option<RegInfo>)
    ensures
        r == known(addr),
{
    for i in 0..REG_COUNT
        invariant
            forall|k: int| 0 <= k < i ==> REG_ADDRS@[k] != addr,
    {
        if REG_ADDRS[i] == addr {
            let info = RegInfo {
                block_id: REG_BLOCK_IDS[i],
                block_name: REG_BLOCK_NAMES[i],
                reg_name: REG_NAMES[i],
                access: REG_ACCESS[i],
                desc: REG_DESCS[i],
            };
            proof {
                assert(names(i as int, addr));
                let first = choose|k: int| names(k, addr);
                assert(names(first, addr));
                assert(first == i);
                assert(info == entry(i as int));
            }
            return Some(info);
        }
    }
    assert forall|i: int| !names(i, addr) by {}
    None
}

/// The first `n` addresses ascend.
pub open spec fn ascends(n: nat) -> bool
    decreases n,
{
    n <= 1 || (ascends((n - 1) as nat) && REG_ADDRS@[n - 2] < REG_ADDRS@[n - 1])
}

proof fn lemma_ascends()
    ensures
        ascends(192),
{
    reveal_with_fuel(ascends, 17);
    assert(ascends(16));
    assert(ascends(32));
    assert(ascends(48));
    assert(ascends(64));
    assert(ascends(80));
    assert(ascends(96));
    assert(ascends(112));
    assert(ascends(128));
    assert(ascends(144));
    assert(ascends(160));
    assert(ascends(176));
}

proof fn lemma_apart(n: nat, i: int, j: int)
    requires
        ascends(n),
        0 <= i < j < n,
    ensures
        REG_ADDRS@[i] < REG_ADDRS@[j],
    decreases n,
{
    if j == n - 1 {
        if i < n - 2 {
            lemma_apart((n - 1) as nat, i, n - 2);
        }
    } else {
        lemma_apart((n - 1) as nat, i, j);
    }
}

/// The table is sorted by address, so an address has one name at most.
pub proof fn law_registers_are_sorted(i: int, j: int)
    requires
        0 <= i < j < 192,
    ensures
        REG_ADDRS@[i] < REG_ADDRS@[j],
{
    lemma_ascends();
    lemma_apart(192, i, j);
}

/// Every address of the table is known, under the entry that stands for it, and
/// no other address is.
pub proof fn law_listed_registers_are_known(i: int, addr: u32)
    requires
        0 <= i < 192,
    ensures
        known(REG_ADDRS@[i]) is Some,
        (known(REG_ADDRS@[i])->0).reg_name == REG_NAMES@[i],
        (known(REG_ADDRS@[i])->0).block_name == REG_BLOCK_NAMES@[i],
        (known(REG_ADDRS@[i])->0).block_id == REG_BLOCK_IDS@[i],
        (known(REG_ADDRS@[i])->0).access == REG_ACCESS@[i],
        (known(REG_ADDRS@[i])->0).desc == REG_DESCS@[i],
        (forall|k: int| 0 <= k < 192 ==> REG_ADDRS@[k] != addr) ==> known(addr) is None,
{
    let at = REG_ADDRS@[i];
    assert forall|k: int| 0 <= k < i implies REG_ADDRS@[k] != at by {
        law_registers_are_sorted(k, i);
    }
    assert(names(i, at));
    let first = choose|k: int| names(k, at);
    assert(names(first, at));
    if first < i {
        law_registers_are_sorted(first, i);
    }
}

} // verus!
