//! The configuration of the daemon.

use std::path::PathBuf;

use vstd::arithmetic::power2::{lemma2_to64, lemma2_to64_rest};
use vstd::prelude::*;

use crate::error::{Error, IoFailure, IoKind, Result};
use crate::float64::{lemma_integer, Float64};
use crate::text::{join, joined};

verus! {

/// Which configuration file to read.
#[derive(Debug, Clone, PartialEq, Eq)]
pub enum ConfigRequest {
    /// A file that was asked for; it has to exist.
    Explicit(PathBuf),
    /// The default file; without it the compiled defaults are used.
    ImplicitDefault(PathBuf),
}

impl ConfigRequest {
    /// The path of the file.
    pub open spec fn path(self) -> PathBuf {
        match self {
            ConfigRequest::Explicit(path) => path,
            ConfigRequest::ImplicitDefault(path) => path,
        }
    }

    /// The path of the file.
    pub fn into_path(self) -> (path: PathBuf)
        ensures
            path == self.path(),
    {
        match self {
            ConfigRequest::Explicit(path) => path,
            ConfigRequest::ImplicitDefault(path) => path,
        }
    }
}

/// Where a configuration comes from.
#[derive(Debug, Clone, PartialEq, Eq)]
pub enum ConfigSource {
    File(PathBuf),
    CompiledDefaults { missing_path: PathBuf },
}

/// A configuration and where it comes from.
#[derive(Debug, Clone)]
pub struct LoadedConfig {
    pub config: Config,
    pub source: ConfigSource,
}

/// What reading and parsing the configuration file brought.
#[derive(Debug)]
pub enum ConfigFile {
    Unreadable(IoFailure),
    /// The parser's message.
    Malformed(String),
    Parsed(Config),
}

/// The settings of the daemon.
#[derive(Debug, Clone)]
pub struct Config {
    pub device: Option<PathBuf>,
    pub device_name_regex: String,
    pub scroll: Scroll,
    pub log: Log,
}

/// The settings of scrolling.
#[derive(Debug, Clone, Copy, PartialEq, Eq, Structural)]
pub struct Scroll {
    pub enable: bool,
    pub reverse_vertical: bool,
    pub horizontal_enable: bool,
    pub reverse_horizontal: bool,
    pub sensitivity: i32,
    pub detect_area_width: i32,
    pub detect_area_radius: Float64,
    pub coordinate_y_scale: Float64,
    pub minimum_rotation_radius: Float64,
    pub horizontal_start: i32,
    pub horizontal_end: i32,
}

/// The settings of logging.
#[derive(Debug, Clone)]
pub struct Log {
    pub level: String,
}

impl Scroll {
    /// The settings with which scrolling works out of the box.
    pub open spec fn is_default(self) -> bool {
        &&& self.enable
        &&& !self.reverse_vertical
        &&& !self.horizontal_enable
        &&& !self.reverse_horizontal
        &&& self.sensitivity == 0
        &&& self.detect_area_width == 0
        &&& self.detect_area_radius.is_integer(200)
        &&& self.coordinate_y_scale.is_integer(1)
        &&& self.minimum_rotation_radius.is_integer(250)
        &&& self.horizontal_start == 2
        &&& self.horizontal_end == 6
    }

    /// Whether all settings are in range.
    pub open spec fn in_range(self) -> bool {
        &&& -2 <= self.sensitivity <= 2
        &&& 0 <= self.detect_area_width <= 10
        &&& self.detect_area_radius.finite() && self.detect_area_radius.scaled() > 0
        &&& self.coordinate_y_scale.finite() && self.coordinate_y_scale.scaled() > 0
        &&& self.minimum_rotation_radius.finite() && self.minimum_rotation_radius.scaled() >= 0
        &&& 0 <= self.horizontal_start <= 15
        &&& 0 <= self.horizontal_end <= 15
    }

    /// The first setting that is out of range.
    pub open spec fn violation(self) -> Option<Error> {
        if !(-2 <= self.sensitivity <= 2) {
            Some(
                Error::ConfigRange {
                    key: "scroll.sensitivity",
                    value: self.sensitivity as i64,
                    expected: "-2..=2",
                },
            )
        } else if !(0 <= self.detect_area_width <= 10) {
            Some(
                Error::ConfigRange {
                    key: "scroll.detect_area_width",
                    value: self.detect_area_width as i64,
                    expected: "0..=10",
                },
            )
        } else if !self.detect_area_radius.finite() || self.detect_area_radius.scaled() <= 0 {
            Some(
                Error::ConfigFloatRange {
                    key: "scroll.detect_area_radius",
                    value: self.detect_area_radius,
                    expected: "a finite value greater than 0",
                },
            )
        } else if !self.coordinate_y_scale.finite() || self.coordinate_y_scale.scaled() <= 0 {
            Some(
                Error::ConfigFloatRange {
                    key: "scroll.coordinate_y_scale",
                    value: self.coordinate_y_scale,
                    expected: "a finite value greater than 0",
                },
            )
        } else if !self.minimum_rotation_radius.finite() || self.minimum_rotation_radius.scaled()
            < 0 {
            Some(
                Error::ConfigFloatRange {
                    key: "scroll.minimum_rotation_radius",
                    value: self.minimum_rotation_radius,
                    expected: "a finite value greater than or equal to 0",
                },
            )
        } else if !(0 <= self.horizontal_start <= 15) {
            Some(
                Error::ConfigRange {
                    key: "scroll.horizontal_start",
                    value: self.horizontal_start as i64,
                    expected: "0..=15",
                },
            )
        } else if !(0 <= self.horizontal_end <= 15) {
            Some(
                Error::ConfigRange {
                    key: "scroll.horizontal_end",
                    value: self.horizontal_end as i64,
                    expected: "0..=15",
                },
            )
        } else {
            None
        }
    }
}

impl Log {
    /// The settings with which logging works out of the box.
    pub open spec fn is_default(self) -> bool {
        self.level@ == "info"@
    }
}

impl Config {
    /// The compiled defaults.
    pub open spec fn is_default(self) -> bool {
        &&& self.device is None
        &&& self.device_name_regex@ == "Synaptics.*TM3562"@
        &&& self.scroll.is_default()
        &&& self.log.is_default()
    }
}

impl Default for Config {
    fn default() -> (config: Config)
        ensures
            config.is_default(),
    {
        Config {
            device: None,
            device_name_regex: "Synaptics.*TM3562".to_owned(),
            scroll: Scroll::default(),
            log: Log::default(),
        }
    }
}

impl Default for Scroll {
    fn default() -> (scroll: Scroll)
        ensures
            scroll.is_default(),
    {
        let scroll = Scroll {
            enable: true,
            reverse_vertical: false,
            horizontal_enable: false,
            reverse_horizontal: false,
            sensitivity: 0,
            detect_area_width: 0,
            detect_area_radius: Float64 { bits: 0x4069_0000_0000_0000 },
            coordinate_y_scale: Float64 { bits: 0x3ff0_0000_0000_0000 },
            minimum_rotation_radius: Float64 { bits: 0x406f_4000_0000_0000 },
            horizontal_start: 2,
            horizontal_end: 6,
        };
        proof {
            lemma2_to64();
            lemma2_to64_rest();
            lemma_integer(scroll.detect_area_radius, 200, 45);
            lemma_integer(scroll.coordinate_y_scale, 1, 52);
            lemma_integer(scroll.minimum_rotation_radius, 250, 45);
        }
        scroll
    }
}

impl Default for Log {
    fn default() -> (log: Log)
        ensures
            log.is_default(),
    {
        Log { level: "info".to_owned() }
    }
}

/// Whether `loaded` is what a request leads to, given what its file brought.
pub open spec fn loads(
    request: ConfigRequest,
    file: ConfigFile,
    loaded: Result<LoadedConfig>,
) -> bool {
    match file {
        ConfigFile::Unreadable(failure) => match request {
            ConfigRequest::ImplicitDefault(path) if failure.kind == IoKind::NotFound => {
                &&& loaded matches Ok(result)
                &&& result.config.is_default()
                &&& result.source == (ConfigSource::CompiledDefaults { missing_path: path })
            },
            _ => loaded == Result::<LoadedConfig>::Err(
                Error::ConfigIo { path: request.path(), source: failure },
            ),
        },
        ConfigFile::Malformed(message) => loaded == Result::<LoadedConfig>::Err(
            Error::ConfigParse { path: request.path(), source: message },
        ),
        ConfigFile::Parsed(config) => match config.scroll.violation() {
            Some(error) => loaded == Result::<LoadedConfig>::Err(error),
            None => loaded == Result::<LoadedConfig>::Ok(
                LoadedConfig { config, source: ConfigSource::File(request.path()) },
            ),
        },
    }
}

/// The path of the default configuration file.
pub open spec fn default_file(
    xdg_config_home: Option<Seq<char>>,
    home: Option<Seq<char>>,
) -> Seq<char> {
    joined(
        joined(
            match xdg_config_home {
                Some(directory) if directory.len() > 0 => directory,
                _ => joined(
                    match home {
                        Some(directory) => directory,
                        None => "."@,
                    },
                    ".config"@,
                ),
            },
            "letsnote-wheelpad"@,
        ),
        "config.toml"@,
    )
}

impl Config {
    /// The configuration that `request` leads to, given what its file brought. A
    /// missing default file leads to the compiled defaults; every other failure,
    /// and every setting out of range, is an error.
    pub fn load(request: ConfigRequest, file: ConfigFile) -> (loaded: Result<LoadedConfig>)
        ensures
            loads(request, file, loaded),
    {
        match file {
            ConfigFile::Unreadable(source) => match request {
                ConfigRequest::ImplicitDefault(path) => {
                    if matches!(source.kind, IoKind::NotFound) {
                        Ok(
                            LoadedConfig {
                                config: Config::default(),
                                source: ConfigSource::CompiledDefaults { missing_path: path },
                            },
                        )
                    } else {
                        Err(Error::ConfigIo { path, source })
                    }
                },
                ConfigRequest::Explicit(path) => Err(Error::ConfigIo { path, source }),
            },
            ConfigFile::Malformed(source) => Err(
                Error::ConfigParse { path: request.into_path(), source },
            ),
            ConfigFile::Parsed(config) => match config.validate() {
                Err(error) => Err(error),
                Ok(()) => Ok(
                    LoadedConfig { config, source: ConfigSource::File(request.into_path()) },
                ),
            },
        }
    }

    /// Fails with the first setting that is out of range.
    pub fn validate(&self) -> (valid: Result<()>)
        ensures
            valid == (match self.scroll.violation() {
                Some(error) => Result::<()>::Err(error),
                None => Result::<()>::Ok(()),
            }),
    {
        let scroll = &self.scroll;
        if !(-2 <= scroll.sensitivity && scroll.sensitivity <= 2) {
            return Err(
                Error::ConfigRange {
                    key: "scroll.sensitivity",
                    value: scroll.sensitivity as i64,
                    expected: "-2..=2",
                },
            );
        }
        if !(0 <= scroll.detect_area_width && scroll.detect_area_width <= 10) {
            return Err(
                Error::ConfigRange {
                    key: "scroll.detect_area_width",
                    value: scroll.detect_area_width as i64,
                    expected: "0..=10",
                },
            );
        }
        if !scroll.detect_area_radius.is_finite() || !scroll.detect_area_radius.is_positive() {
            return Err(
                Error::ConfigFloatRange {
                    key: "scroll.detect_area_radius",
                    value: scroll.detect_area_radius,
                    expected: "a finite value greater than 0",
                },
            );
        }
        if !scroll.coordinate_y_scale.is_finite() || !scroll.coordinate_y_scale.is_positive() {
            return Err(
                Error::ConfigFloatRange {
                    key: "scroll.coordinate_y_scale",
                    value: scroll.coordinate_y_scale,
                    expected: "a finite value greater than 0",
                },
            );
        }
        if !scroll.minimum_rotation_radius.is_finite()
            || scroll.minimum_rotation_radius.is_negative() {
            return Err(
                Error::ConfigFloatRange {
                    key: "scroll.minimum_rotation_radius",
                    value: scroll.minimum_rotation_radius,
                    expected: "a finite value greater than or equal to 0",
                },
            );
        }
        if !(0 <= scroll.horizontal_start && scroll.horizontal_start <= 15) {
            return Err(
                Error::ConfigRange {
                    key: "scroll.horizontal_start",
                    value: scroll.horizontal_start as i64,
                    expected: "0..=15",
                },
            );
        }
        if !(0 <= scroll.horizontal_end && scroll.horizontal_end <= 15) {
            return Err(
                Error::ConfigRange {
                    key: "scroll.horizontal_end",
                    value: scroll.horizontal_end as i64,
                    expected: "0..=15",
                },
            );
        }
        Ok(())
    }

    /// The path of the default configuration file, from the values of
    /// `XDG_CONFIG_HOME` and `HOME`. Without a home it lies below the working
    /// directory.
    pub fn default_path(xdg_config_home: Option<&str>, home: Option<&str>) -> (path: String)
        ensures
            path@ == default_file(
                match xdg_config_home {
                    Some(directory) => Some(directory@),
                    None => None,
                },
                match home {
                    Some(directory) => Some(directory@),
                    None => None,
                },
            ),
    {
        if let Some(directory) = xdg_config_home {
            if !directory.is_empty() {
                return join(join(directory, "letsnote-wheelpad").as_str(), "config.toml");
            }
        }
        let home = match home {
            Some(directory) => directory,
            None => ".",
        };
        let base = join(home, ".config");
        join(join(base.as_str(), "letsnote-wheelpad").as_str(), "config.toml")
    }
}

/// A configuration is accepted exactly if all its settings are in range.
pub proof fn law_accepted_settings_are_in_range(scroll: Scroll)
    ensures
        scroll.violation() is None <==> scroll.in_range(),
{
}

/// The compiled defaults are in range.
pub proof fn law_defaults_are_in_range(config: Config)
    requires
        config.is_default(),
    ensures
        config.scroll.in_range(),
{
    vstd::arithmetic::power2::lemma_pow2_pos(1074);
}

/// A setting that is out of range is refused by its name, with its value, unless
/// one before it is refused already; nothing else is refused. The bounds
/// themselves are in range.
pub proof fn law_settings_out_of_range_are_named(scroll: Scroll)
    ensures
        ({
            let sensitivity = scroll.sensitivity < -2 || scroll.sensitivity > 2;
            let width = scroll.detect_area_width < 0 || scroll.detect_area_width > 10;
            let radius = !scroll.detect_area_radius.finite() || scroll.detect_area_radius.scaled()
                <= 0;
            let scale = !scroll.coordinate_y_scale.finite() || scroll.coordinate_y_scale.scaled()
                <= 0;
            let rotation = !scroll.minimum_rotation_radius.finite()
                || scroll.minimum_rotation_radius.scaled() < 0;
            let start = scroll.horizontal_start < 0 || scroll.horizontal_start > 15;
            let end = scroll.horizontal_end < 0 || scroll.horizontal_end > 15;
            let refused = scroll.violation();
            &&& refused is Some <==> sensitivity || width || radius || scale || rotation || start
                || end
            &&& refused is None <==> scroll.in_range()
            &&& sensitivity ==> (refused matches Some(Error::ConfigRange { key, value, expected })
                && key == "scroll.sensitivity" && value == scroll.sensitivity && expected
                == "-2..=2")
            &&& !sensitivity && width ==> (refused matches Some(
                Error::ConfigRange { key, value, expected },
            ) && key == "scroll.detect_area_width" && value == scroll.detect_area_width && expected
                == "0..=10")
            &&& !sensitivity && !width && radius ==> (refused matches Some(
                Error::ConfigFloatRange { key, value, expected },
            ) && key == "scroll.detect_area_radius" && value == scroll.detect_area_radius
                && expected == "a finite value greater than 0")
            &&& !sensitivity && !width && !radius && scale ==> (refused matches Some(
                Error::ConfigFloatRange { key, value, expected },
            ) && key == "scroll.coordinate_y_scale" && value == scroll.coordinate_y_scale
                && expected == "a finite value greater than 0")
            &&& !sensitivity && !width && !radius && !scale && rotation ==> (refused matches Some(
                Error::ConfigFloatRange { key, value, expected },
            ) && key == "scroll.minimum_rotation_radius" && value == scroll.minimum_rotation_radius
                && expected == "a finite value greater than or equal to 0")
            &&& !sensitivity && !width && !radius && !scale && !rotation && start ==> (
            refused matches Some(Error::ConfigRange { key, value, expected }) && key
                == "scroll.horizontal_start" && value == scroll.horizontal_start && expected
                == "0..=15")
            &&& !sensitivity && !width && !radius && !scale && !rotation && !start && end ==> (
            refused matches Some(Error::ConfigRange { key, value, expected }) && key
                == "scroll.horizontal_end" && value == scroll.horizontal_end && expected
                == "0..=15")
        }),
{
}

/// Settings that only choose a behaviour are never refused: two groups of settings
/// with the same numbers are refused alike.
pub proof fn law_only_numbers_are_refused(first: Scroll, second: Scroll)
    requires
        first.sensitivity == second.sensitivity,
        first.detect_area_width == second.detect_area_width,
        first.detect_area_radius == second.detect_area_radius,
        first.coordinate_y_scale == second.coordinate_y_scale,
        first.minimum_rotation_radius == second.minimum_rotation_radius,
        first.horizontal_start == second.horizontal_start,
        first.horizontal_end == second.horizontal_end,
    ensures
        first.violation() == second.violation(),
{
}

/// Out of the box the daemon looks for the touchpad by its name and scrolls
/// vertically alone, with nothing reversed and a middle sensitivity.
pub proof fn law_defaults_scroll_vertically(config: Config)
    requires
        config.is_default(),
    ensures
        config.device is None,
        config.device_name_regex@ == "Synaptics.*TM3562"@,
        config.log.level@ == "info"@,
        config.scroll.enable && !config.scroll.horizontal_enable,
        !config.scroll.reverse_vertical && !config.scroll.reverse_horizontal,
        config.scroll.sensitivity == 0 && config.scroll.detect_area_width == 0,
        config.scroll.horizontal_start == 2 && config.scroll.horizontal_end == 6,
        config.scroll.detect_area_radius.is_integer(200),
        config.scroll.coordinate_y_scale.is_integer(1),
        config.scroll.minimum_rotation_radius.is_integer(250),
{
}

/// A request is for the path that it was made with.
pub proof fn law_requests_keep_their_path(path: PathBuf)
    ensures
        ConfigRequest::Explicit(path).path() == path,
        ConfigRequest::ImplicitDefault(path).path() == path,
{
}

/// A missing default file leads to the compiled defaults, which are used for nothing
/// else: a file that was asked for has to exist, and a file that cannot be read for
/// another reason is an error, with its path and its cause.
pub proof fn law_only_a_missing_default_file_is_replaced(
    request: ConfigRequest,
    failure: IoFailure,
    loaded: Result<LoadedConfig>,
)
    requires
        loads(request, ConfigFile::Unreadable(failure), loaded),
    ensures
        loaded is Ok <==> request is ImplicitDefault && failure.kind is NotFound,
        loaded matches Ok(result) ==> result.config.is_default() && result.source == (
        ConfigSource::CompiledDefaults { missing_path: request->ImplicitDefault_0 }),
        loaded is Err ==> (loaded matches Err(Error::ConfigIo { path, source }) && source == failure
            && (request == ConfigRequest::Explicit(path) || request
            == ConfigRequest::ImplicitDefault(path))),
{
}

/// A file that cannot be parsed is an error with its path and the message, whoever
/// asked for it.
pub proof fn law_malformed_files_are_errors(
    request: ConfigRequest,
    message: String,
    loaded: Result<LoadedConfig>,
)
    requires
        loads(request, ConfigFile::Malformed(message), loaded),
    ensures
        loaded matches Err(Error::ConfigParse { path, source }) && source == message && (request
            == ConfigRequest::Explicit(path) || request == ConfigRequest::ImplicitDefault(path)),
{
}

/// A file that can be parsed is used as it is, and said to be the source, exactly if
/// its settings are in range; otherwise nothing is used in its place.
pub proof fn law_parsed_settings_are_used_as_they_are(
    request: ConfigRequest,
    config: Config,
    loaded: Result<LoadedConfig>,
)
    requires
        loads(request, ConfigFile::Parsed(config), loaded),
    ensures
        loaded is Ok <==> config.scroll.in_range(),
        loaded matches Ok(result) ==> result.config == config && (result.source matches
            ConfigSource::File(path) && (request == ConfigRequest::Explicit(path) || request
            == ConfigRequest::ImplicitDefault(path))),
        loaded matches Err(error) ==> config.scroll.violation() == Some(error),
{
}

/// The default file lies in the configuration home if that is set and not empty,
/// whatever the home is, and in the directory for configuration in the home
/// otherwise; without a home it lies below the working directory.
pub proof fn law_default_file_lies_in_the_configuration_home(
    xdg: Seq<char>,
    home: Seq<char>,
    any: Option<Seq<char>>,
)
    ensures
        xdg.len() > 0 ==> default_file(Some(xdg), any) == joined(
            joined(xdg, "letsnote-wheelpad"@),
            "config.toml"@,
        ),
        default_file(None, Some(home)) == joined(
            joined(joined(home, ".config"@), "letsnote-wheelpad"@),
            "config.toml"@,
        ),
        default_file(None, None) == default_file(None, Some("."@)),
        xdg.len() == 0 ==> default_file(Some(xdg), any) == default_file(None, any),
{
}

} // verus!
