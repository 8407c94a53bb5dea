//! Where the settings are kept.
use vstd::prelude::*;
use crate::domain::opt_string_view;
use crate::path::{join_chars, join_path};
use crate::text::{chars_of, to_string};

verus! {

/// The folder of application data: `APPDATA` on Windows; elsewhere
/// `XDG_CONFIG_HOME`, else `<HOME>/.config`.
pub open spec fn data_dir_of(
    app_data: Option<Seq<char>>,
    config_home: Option<Seq<char>>,
    home: Option<Seq<char>>,
    windows: bool,
) -> Option<Seq<char>> {
    if windows {
        app_data
    } else {
        match config_home {
            Some(c) => Some(c),
            None => match home {
                Some(h) => Some(join_path(h, ".config"@, false)),
                None => None,
            },
        }
    }
}

pub fn dirs_path(
    app_data: Option<String>,
    config_home: Option<String>,
    home: Option<String>,
    windows: bool,
) -> (r: Option<String>)
    ensures
        opt_string_view(r) == data_dir_of(
            opt_string_view(app_data),
            opt_string_view(config_home),
            opt_string_view(home),
            windows,
        ),
{
    if windows {
        app_data
    } else {
        match config_home {
            Some(c) => Some(c),
            None => match home {
                Some(h) => Some(to_string(&join_chars(&chars_of(h.as_str()), &chars_of(".config"), false))),
                None => None,
            },
        }
    }
}

/// `<base>/<folder>/<file>`, or the error when there is no base.
pub open spec fn settings_file_of(base: Option<Seq<char>>, folder: Seq<char>, file: Seq<char>, windows: bool) -> Result<
    Seq<char>,
    Seq<char>,
> {
    match base {
        Some(b) => Ok(join_path(join_path(b, folder, windows), file, windows)),
        None => Err("无法定位应用数据目录"@),
    }
}

fn settings_file(base: &Option<String>, folder: &str, file: &str, windows: bool) -> (r: Result<String, String>)
    ensures
        crate::package::string_result(r) == settings_file_of(opt_string_view(*base), folder@, file@, windows),
{
    match base {
        Some(b) => Ok(
            to_string(
                &join_chars(&join_chars(&chars_of(b.as_str()), &chars_of(folder), windows), &chars_of(file), windows),
            ),
        ),
        None => Err("无法定位应用数据目录".to_owned()),
    }
}

/// The settings file: `<data>/WJ Python Manager/settings.json`.
pub fn settings_path(base: &Option<String>, windows: bool) -> (r: Result<String, String>)
    ensures
        crate::package::string_result(r) == settings_file_of(
            opt_string_view(*base),
            "WJ Python Manager"@,
            "settings.json"@,
            windows,
        ),
{
    settings_file(base, "WJ Python Manager", "settings.json", windows)
}

/// The settings file of earlier versions: `<data>/WeiPython/settings.json`.
pub fn legacy_settings_path(base: &Option<String>, windows: bool) -> (r: Result<String, String>)
    ensures
        crate::package::string_result(r) == settings_file_of(opt_string_view(*base), "WeiPython"@, "settings.json"@, windows),
{
    settings_file(base, "WeiPython", "settings.json", windows)
}

/// The file the settings are first written to: the settings file with the
/// extension `json.tmp` in place of `json`.
pub fn settings_temp_path(base: &Option<String>, windows: bool) -> (r: Result<String, String>)
    ensures
        crate::package::string_result(r) == settings_file_of(
            opt_string_view(*base),
            "WJ Python Manager"@,
            "settings.json.tmp"@,
            windows,
        ),
{
    settings_file(base, "WJ Python Manager", "settings.json.tmp", windows)
}

} // verus!
