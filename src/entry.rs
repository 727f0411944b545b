//! One launchable application, and how it is read from a parsed descriptor.
use vstd::prelude::*;

verus! {

/// The section of a descriptor file that describes the application.
pub const DESKTOP_SECTION: &'static str = "Desktop Entry";

/// The key holding the display name.
pub const NAME_KEY: &'static str = "Name";

/// The key holding the command line.
pub const EXEC_KEY: &'static str = "Exec";

/// The key holding the icon path or icon-theme name.
pub const ICON_KEY: &'static str = "Icon";

/// The generic "other application" icon used when a descriptor names none.
pub const FALLBACK_ICON: &'static str = "applications-other";

/// The attributes of a parsed descriptor: `(section, key)` to value.
pub type Attributes = Map<(Seq<char>, Seq<char>), Seq<char>>;

/// One launchable application.
#[derive(Clone, Debug, PartialEq, Eq)]
pub struct AppInfo {
    pub name: String,
    pub command: String,
    pub icon: String,
}

/// The mathematical value of an [`AppInfo`].
pub struct AppModel {
    pub name: Seq<char>,
    pub command: Seq<char>,
    pub icon: Seq<char>,
}

impl View for AppInfo {
    type V = AppModel;

    open spec fn view(&self) -> AppModel {
        AppModel { name: self.name@, command: self.command@, icon: self.icon@ }
    }
}

impl AppModel {
    /// A catalog entry can be shown and launched: both name and command are present.
    pub open spec fn well_formed(self) -> bool {
        self.name.len() > 0 && self.command.len() > 0
    }
}

/// The value of `key` in the descriptor section, when present.
pub open spec fn attr_value(attrs: Attributes, key: Seq<char>) -> Option<Seq<char>> {
    if attrs.contains_key((DESKTOP_SECTION@, key)) {
        Some(attrs[(DESKTOP_SECTION@, key)])
    } else {
        None
    }
}

/// The application a descriptor's attributes describe: none when the name or
/// the command is missing or empty; the icon defaults to [`FALLBACK_ICON`].
pub open spec fn app_of(attrs: Attributes) -> Option<AppModel> {
    match (attr_value(attrs, NAME_KEY@), attr_value(attrs, EXEC_KEY@)) {
        (Some(name), Some(command)) => {
            if name.len() > 0 && command.len() > 0 {
                Some(
                    AppModel {
                        name,
                        command,
                        icon: match attr_value(attrs, ICON_KEY@) {
                            Some(icon) => icon,
                            None => FALLBACK_ICON@,
                        },
                    },
                )
            } else {
                None
            }
        },
        _ => None,
    }
}

/// What a descriptor parser value holds, as `(section, key)` to value.
pub uninterp spec fn entry_attrs(e: freedesktop_entry_parser::Entry) -> Attributes;

/// What parsing the given bytes as a descriptor yields, or none when they do
/// not parse.
pub uninterp spec fn parsed_attrs(bytes: Seq<u8>) -> Option<Attributes>;

#[verifier::external_type_specification]
#[verifier::external_body]
pub struct ExEntry(freedesktop_entry_parser::Entry);

#[verifier::external_type_specification]
#[verifier::external_body]
pub struct ExParseError(freedesktop_entry_parser::ParseError);

/// Relies on freedesktop_entry_parser::Entry::parse: the bytes either parse
/// into an entry, whose attributes depend on the bytes alone, or give an error.
#[verifier::external_body]
pub(crate) fn parse_descriptor(bytes: &[u8]) -> (r: Result<
    freedesktop_entry_parser::Entry,
    freedesktop_entry_parser::ParseError,
>)
    ensures
        match r {
            Ok(e) => parsed_attrs(bytes@) == Some(entry_attrs(e)),
            Err(_) => parsed_attrs(bytes@) is None,
        },
{
    freedesktop_entry_parser::Entry::parse(bytes)
}

/// Relies on freedesktop_entry_parser's `Entry::section(..).attr(..)`: the
/// value of a key without parameter in a section, none when absent.
#[verifier::external_body]
fn lookup_attr(e: &freedesktop_entry_parser::Entry, section: &str, key: &str) -> (r: Option<
    String,
>)
    ensures
        match r {
            Some(v) => entry_attrs(*e).contains_key((section@, key@)) && v@ == entry_attrs(*e)[(
                section@,
                key@,
            )],
            None => !entry_attrs(*e).contains_key((section@, key@)),
        },
{
    e.section(section).attr(key).map(|v| v.to_string())
}

impl AppInfo {
    /// A copy with the same fields.
    pub fn duplicate(&self) -> (r: AppInfo)
        ensures
            r@ == self@,
    {
        AppInfo { name: self.name.clone(), command: self.command.clone(), icon: self.icon.clone() }
    }

    /// The application a parsed descriptor describes, if it has a name and a
    /// command.
    pub fn from_entry(e: &freedesktop_entry_parser::Entry) -> (r: Option<AppInfo>)
        ensures
            match r {
                Some(a) => app_of(entry_attrs(*e)) == Some(a@),
                None => app_of(entry_attrs(*e)) is None,
            },
    {
        let name = match lookup_attr(e, DESKTOP_SECTION, NAME_KEY) {
            Some(n) => n,
            None => return None,
        };
        let command = match lookup_attr(e, DESKTOP_SECTION, EXEC_KEY) {
            Some(c) => c,
            None => return None,
        };
        if name.as_str().is_empty() || command.as_str().is_empty() {
            return None;
        }
        let icon = match lookup_attr(e, DESKTOP_SECTION, ICON_KEY) {
            Some(i) => i,
            None => FALLBACK_ICON.to_string(),
        };
        Some(AppInfo { name, command, icon })
    }
}

} // verus!
