//! Starting the application with the user's session: the paths and the
//! script for a shortcut in the startup folder.
//!
//! Nothing here touches the disk. The caller says what it found there and
//! carries out what comes back.

use crate::command::result_view;
use crate::text::{append, chars_of, string_of};
use vstd::prelude::*;

verus! {

/// Works out what enabling and disabling the start with the session take.
pub struct AutoStartupManager;

/// The message for a system without a startup folder.
pub open spec fn unsupported_message() -> Seq<char> {
    "Auto-startup is only supported on Windows"@
}

/// The name of the shortcut.
pub open spec fn shortcut_name() -> Seq<char> {
    "DNS Manager.lnk"@
}

/// Whether `c` parts the members of a path.
pub open spec fn is_separator(c: char) -> bool {
    c == '\\' || c == '/'
}

/// `path` with the member `name` below it.
pub open spec fn child_path(path: Seq<char>, name: Seq<char>) -> Seq<char> {
    if path.len() == 0 || is_separator(path.last()) {
        path + name
    } else {
        path + seq!['\\'] + name
    }
}

/// The startup folder below the application data folder `appdata`.
pub open spec fn startup_folder(appdata: Seq<char>) -> Seq<char> {
    child_path(
        child_path(
            child_path(child_path(child_path(appdata, "Microsoft"@), "Windows"@), "Start Menu"@),
            "Programs"@,
        ),
        "Startup"@,
    )
}

/// Where the shortcut lies below the application data folder `appdata`.
pub open spec fn shortcut_location(appdata: Seq<char>) -> Seq<char> {
    child_path(startup_folder(appdata), shortcut_name())
}

/// The script that makes the shortcut at `shortcut` for the program
/// `target`, which is to run in `working_directory`.
pub open spec fn shortcut_script(
    shortcut: Seq<char>,
    target: Seq<char>,
    working_directory: Seq<char>,
) -> Seq<char> {
    "$ws = New-Object -ComObject WScript.Shell; $s = $ws.CreateShortcut('"@ + shortcut
        + "'); $s.TargetPath = '"@ + target + "'; $s.WorkingDirectory = '"@ + working_directory
        + "'; $s.Description = 'DNS Manager - Background Agent'; $s.Save()"@
}

/// `path` with the member `name` below it.
pub fn join_path(path: &Vec<char>, name: &str) -> (out: Vec<char>)
    ensures
        out@ == child_path(path@, name@),
{
    let mut out: Vec<char> = Vec::new();
    append(&mut out, path);
    assert(out@ =~= path@);
    if path.len() != 0 {
        let last = path[path.len() - 1];
        if last != '\\' && last != '/' {
            out.push('\\');
        }
    }
    append(&mut out, &chars_of(name));
    out
}

impl AutoStartupManager {
    /// The startup folder, where the application data folder is known; else
    /// the message that there is none.
    pub fn get_startup_path(appdata: Option<&str>) -> (r: Result<String, String>)
        ensures
            result_view(r) == match appdata {
                Some(folder) => Ok(startup_folder(folder@)),
                None => Err(unsupported_message()),
            },
    {
        match appdata {
            Some(folder) => Ok(string_of(&startup_chars(folder))),
            None => Err("Auto-startup is only supported on Windows".to_owned()),
        }
    }

    /// Where the shortcut lies, where the application data folder is known.
    pub fn shortcut_path(appdata: Option<&str>) -> (r: Result<String, String>)
        ensures
            result_view(r) == match appdata {
                Some(folder) => Ok(shortcut_location(folder@)),
                None => Err(unsupported_message()),
            },
    {
        match appdata {
            Some(folder) => Ok(string_of(&join_path(&startup_chars(folder), "DNS Manager.lnk"))),
            None => Err("Auto-startup is only supported on Windows".to_owned()),
        }
    }

    /// Whether the start with the session is on: the application data
    /// folder is known and the shortcut is there.
    pub fn is_enabled(appdata: Option<&str>, shortcut_exists: bool) -> (r: bool)
        ensures
            r == (appdata is Some && shortcut_exists),
    {
        appdata.is_some() && shortcut_exists
    }

    /// The PowerShell script that makes the shortcut for the program at
    /// `exe_path`, which is to run in `working_directory`; or the message
    /// that there is no startup folder.
    pub fn enable(appdata: Option<&str>, exe_path: &str, working_directory: &str) -> (r: Result<
        String,
        String,
    >)
        ensures
            result_view(r) == match appdata {
                Some(folder) => Ok(
                    shortcut_script(shortcut_location(folder@), exe_path@, working_directory@),
                ),
                None => Err(unsupported_message()),
            },
    {
        match appdata {
            Some(folder) => {
                let shortcut = join_path(&startup_chars(folder), "DNS Manager.lnk");
                let mut text = chars_of(
                    "$ws = New-Object -ComObject WScript.Shell; $s = $ws.CreateShortcut('",
                );
                append(&mut text, &shortcut);
                append(&mut text, &chars_of("'); $s.TargetPath = '"));
                append(&mut text, &chars_of(exe_path));
                append(&mut text, &chars_of("'; $s.WorkingDirectory = '"));
                append(&mut text, &chars_of(working_directory));
                append(
                    &mut text,
                    &chars_of("'; $s.Description = 'DNS Manager - Background Agent'; $s.Save()"),
                );
                Ok(string_of(&text))
            },
            None => Err("Auto-startup is only supported on Windows".to_owned()),
        }
    }

    /// The file to remove so that the start with the session is off: the
    /// shortcut, where it is there; nothing where it is not. Or the message
    /// that there is no startup folder.
    pub fn disable(appdata: Option<&str>, shortcut_exists: bool) -> (r: Result<
        Option<String>,
        String,
    >)
        ensures
            match appdata {
                Some(folder) => r matches Ok(file) && match file {
                    Some(path) => shortcut_exists && path@ == shortcut_location(folder@),
                    None => !shortcut_exists,
                },
                None => r matches Err(message) && message@ == unsupported_message(),
            },
    {
        match appdata {
            Some(folder) => {
                if shortcut_exists {
                    Ok(Some(string_of(&join_path(&startup_chars(folder), "DNS Manager.lnk"))))
                } else {
                    Ok(None)
                }
            },
            None => Err("Auto-startup is only supported on Windows".to_owned()),
        }
    }
}

fn startup_chars(appdata: &str) -> (out: Vec<char>)
    ensures
        out@ == startup_folder(appdata@),
{
    let base = chars_of(appdata);
    let a = join_path(&base, "Microsoft");
    let b = join_path(&a, "Windows");
    let c = join_path(&b, "Start Menu");
    let d = join_path(&c, "Programs");
    join_path(&d, "Startup")
}

} // verus!
