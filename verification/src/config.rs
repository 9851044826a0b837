use vstd::prelude::*;

verus! {

/// The synchronous device bus transport: device path and clock speed.
pub struct SpiConfig {
    pub dev: String,
    pub baud: u32,
}

/// The serial line the structured-record producer reads: device path and
/// baud rate.
pub struct SerialConfig {
    pub dev: String,
    pub baud: u32,
}

/// The persistence settings: the store directory, the batch size threshold,
/// and the batch time threshold in seconds.
pub struct SaveConfig {
    pub db_dir: String,
    pub bulk_size: u32,
    pub bulk_interval: u32,
}

/// The bus endpoints, one well-known local address per producer role.
pub struct SocketConfig {
    pub spi: String,
    pub gps: String,
}

/// The full startup configuration.
pub struct Config {
    pub spi: SpiConfig,
    pub serial: SerialConfig,
    pub save: SaveConfig,
    pub socket: SocketConfig,
}

} // verus!
