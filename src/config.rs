use vstd::prelude::*;

verus! {

/// Severity threshold of the diagnostic log.
#[derive(Clone, Copy, Debug, PartialEq, Eq, Structural)]
pub enum LogLevel {
    NONE,
    ERROR,
    WARNING,
    INFO,
    DEBUG,
}

/// The level named by a raw severity number; numbers above the highest level
/// saturate to it.
pub open spec fn level_of(lvl: u8) -> LogLevel {
    if lvl == 0 {
        LogLevel::NONE
    } else if lvl == 1 {
        LogLevel::ERROR
    } else if lvl == 2 {
        LogLevel::WARNING
    } else if lvl == 3 {
        LogLevel::INFO
    } else {
        LogLevel::DEBUG
    }
}

impl LogLevel {
    /// Rank of the level: the higher, the more is logged.
    pub open spec fn spec_rank(self) -> u8 {
        match self {
            LogLevel::NONE => 0,
            LogLevel::ERROR => 1,
            LogLevel::WARNING => 2,
            LogLevel::INFO => 3,
            LogLevel::DEBUG => 4,
        }
    }

    pub fn rank(&self) -> (r: u8)
        ensures
            r == self.spec_rank(),
    {
        match self {
            LogLevel::NONE => 0,
            LogLevel::ERROR => 1,
            LogLevel::WARNING => 2,
            LogLevel::INFO => 3,
            LogLevel::DEBUG => 4,
        }
    }

    /// A message of severity `msg` passes a log configured at this level.
    pub fn allows(&self, msg: LogLevel) -> (r: bool)
        ensures
            r == (msg != LogLevel::NONE && msg.spec_rank() <= self.spec_rank()),
    {
        match msg {
            LogLevel::NONE => false,
            _ => msg.rank() <= self.rank(),
        }
    }

    pub fn from(lvl: u8) -> (r: LogLevel)
        ensures
            r == level_of(lvl),
    {
        if lvl > 4 {
            return LogLevel::DEBUG;
        }
        match lvl {
            0 => LogLevel::NONE,
            1 => LogLevel::ERROR,
            2 => LogLevel::WARNING,
            3 => LogLevel::INFO,
            _ => LogLevel::DEBUG,
        }
    }
}

/// What a configured process knows of itself.
#[derive(Clone, Copy, Debug, PartialEq, Eq, Structural)]
pub struct AppConfig {
    /// The process's unique identifier, stamped on every request so that the
    /// kernel can tell senders apart.
    pub identifier: usize,
    pub log_level: LogLevel,
}

/// Why a configuration call was refused.
#[derive(Clone, Copy, Debug, PartialEq, Eq, Structural)]
pub enum ConfigError {
    /// The process was configured already.
    AlreadyConfigured,
}

/// The process's configuration slot: empty until set, then set for good.
pub struct ConfigCell {
    config: Option<AppConfig>,
}

impl View for ConfigCell {
    type V = Option<AppConfig>;

    closed spec fn view(&self) -> Option<AppConfig> {
        self.config
    }
}

impl ConfigCell {
    pub fn new() -> (r: ConfigCell)
        ensures
            r@ is None,
    {
        ConfigCell { config: None }
    }
}

/// The slot and the result after `set_config` on a slot that held `before`.
pub open spec fn set_outcome(before: Option<AppConfig>, identifier: usize, log_level: LogLevel) -> (
    Option<AppConfig>,
    Result<(), ConfigError>,
) {
    match before {
        None => (Some(AppConfig { identifier, log_level }), Ok(())),
        Some(c) => (Some(c), Err(ConfigError::AlreadyConfigured)),
    }
}

/// Configures the process once; a second attempt is refused and changes
/// nothing.
pub fn set_config(cell: &mut ConfigCell, identifier: usize, log_level: LogLevel) -> (r: Result<
    (),
    ConfigError,
>)
    ensures
        (final(cell)@, r) == set_outcome(old(cell)@, identifier, log_level),
{
    if cell.config.is_some() {
        return Err(ConfigError::AlreadyConfigured);
    }
    cell.config = Some(AppConfig { identifier, log_level });
    Ok(())
}

/// Write-once configuration: after a first `set_config` succeeds, a second
/// one fails and leaves the first configuration in place.
pub proof fn lemma_write_once(
    identifier: usize,
    log_level: LogLevel,
    identifier2: usize,
    log_level2: LogLevel,
)
    ensures
        ({
            let (first, r1) = set_outcome(None, identifier, log_level);
            let (second, r2) = set_outcome(first, identifier2, log_level2);
            &&& r1 is Ok
            &&& first == Some(AppConfig { identifier, log_level })
            &&& r2 == Err::<(), _>(ConfigError::AlreadyConfigured)
            &&& second == first
        }),
{
}

/// The configuration, if the process has one.
pub fn get_config(cell: &ConfigCell) -> (r: Option<AppConfig>)
    ensures
        r == cell@,
{
    cell.config
}

/// The configuration of a configured process.
pub fn get_config_or_panic(cell: &ConfigCell) -> (r: AppConfig)
    requires
        cell@ is Some,
    ensures
        cell@ == Some(r),
{
    cell.config.unwrap()
}

/// The identifier of a configured process.
pub fn get_identifier(cell: &ConfigCell) -> (r: usize)
    requires
        cell@ is Some,
    ensures
        r == cell@->0.identifier,
{
    get_config_or_panic(cell).identifier
}

/// Configures the process from its identifier and a raw log severity.
pub fn setup(cell: &mut ConfigCell, identifier: usize, log_level: u8) -> (r: Result<
    (),
    ConfigError,
>)
    ensures
        (final(cell)@, r) == set_outcome(old(cell)@, identifier, level_of(log_level)),
{
    set_config(cell, identifier, LogLevel::from(log_level))
}

} // verus!
