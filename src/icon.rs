//! Where a result row's icon comes from: three sources tried in order, the
//! first that yields a bitmap wins.
use vstd::prelude::*;
use crate::entry::FALLBACK_ICON;

verus! {

/// The size in pixels, both ways, of every icon shown.
pub const ICON_SIZE: i32 = 32;

/// One place to load an icon from.
#[derive(Clone, Debug, PartialEq, Eq)]
pub enum IconSource {
    /// A bitmap file, scaled to the icon size.
    File(String),
    /// A name looked up in the active icon theme at the icon size.
    Theme(String),
}

/// The mathematical value of an [`IconSource`].
pub enum IconSourceModel {
    File(Seq<char>),
    Theme(Seq<char>),
}

impl View for IconSource {
    type V = IconSourceModel;

    open spec fn view(&self) -> IconSourceModel {
        match self {
            IconSource::File(p) => IconSourceModel::File(p@),
            IconSource::Theme(n) => IconSourceModel::Theme(n@),
        }
    }
}

/// The source to try after `failed` sources have failed for the icon
/// reference `icon_ref`: the reference as a file path, then as a theme name,
/// then the fallback theme name; none once all three have failed.
pub open spec fn icon_step(icon_ref: Seq<char>, failed: nat) -> Option<IconSourceModel> {
    if failed == 0 {
        Some(IconSourceModel::File(icon_ref))
    } else if failed == 1 {
        Some(IconSourceModel::Theme(icon_ref))
    } else if failed == 2 {
        Some(IconSourceModel::Theme(FALLBACK_ICON@))
    } else {
        None
    }
}

/// The source to try for `icon_ref` after `failed` sources have failed.
pub fn next_icon_source(icon_ref: &str, failed: usize) -> (r: Option<IconSource>)
    ensures
        match r {
            Some(s) => icon_step(icon_ref@, failed as nat) == Some(s@),
            None => icon_step(icon_ref@, failed as nat) is None,
        },
{
    if failed == 0 {
        Some(IconSource::File(icon_ref.to_string()))
    } else if failed == 1 {
        Some(IconSource::Theme(icon_ref.to_string()))
    } else if failed == 2 {
        Some(IconSource::Theme(FALLBACK_ICON.to_string()))
    } else {
        None
    }
}

} // verus!
