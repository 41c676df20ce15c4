//! Icon resolution for application classes: a themed-icon lookup with a
//! retry under the ASCII-lowercased class name, and the per-class record
//! the presentation keeps.

use crate::registry::WindowEntry;
use vstd::prelude::*;

verus! {

/// The pixel size requested for application icons.
pub const ICON_SIZE: u16 = 96;

/// ASCII lowercase of one character: uppercase ASCII letters gain 32,
/// everything else is unchanged.
pub open spec fn ascii_lower_char(c: char) -> char {
    if 65 <= c as u32 && c as u32 <= 90 {
        ((c as u32) + 32) as char
    } else {
        c
    }
}

/// ASCII lowercase of a character sequence, pointwise.
pub open spec fn ascii_lower(s: Seq<char>) -> Seq<char> {
    s.map_values(|c: char| ascii_lower_char(c))
}

/// Relies on str::to_ascii_lowercase: ASCII uppercase letters are replaced
/// with their lowercase counterparts; all other characters are unchanged.
#[verifier::external_body]
fn lowercase_ascii(s: &str) -> (r: String)
    ensures
        r@ == ascii_lower(s@),
{
    s.to_ascii_lowercase()
}

/// The class name used for the retry lookup: the ASCII-lowercased class.
pub fn lowered_class_name(class_name: &str) -> (r: String)
    ensures
        r@ == ascii_lower(class_name@),
{
    lowercase_ascii(class_name)
}

/// Relies on freedesktop_icons::lookup(name).with_size(size).find(): it
/// searches the icon themes installed on this machine for a matching image
/// and returns its path, so the result depends on what is on disk. Paths
/// that are not valid Unicode are treated as misses.
#[verifier::external_body]
fn icon_find(class_name: &str, size: u16) -> (r: Option<String>) {
    freedesktop_icons::lookup(class_name).with_size(size).find().and_then(
        |p| p.into_os_string().into_string().ok(),
    )
}

/// The path of a themed icon for `class_name`, if any theme on this machine
/// has one; a miss is retried once under the ASCII-lowercased class name.
pub fn lookup_icon(class_name: &str) -> (r: Option<String>) {
    let direct = icon_find(class_name, ICON_SIZE);
    if direct.is_some() {
        direct
    } else {
        let lowered = lowered_class_name(class_name);
        icon_find(lowered.as_str(), ICON_SIZE)
    }
}

/// The presentation's record of one application class: the clients shown
/// under it and the icon resolved for it at creation.
#[derive(Debug)]
pub struct Class {
    pub clients: Vec<WindowEntry>,
    pub icon_path: Option<String>,
}

impl Class {
    /// A class with no clients yet and whatever icon the lookup resolves.
    pub fn new(class_name: &str) -> (r: Class)
        ensures
            r.clients@.len() == 0,
    {
        Class { clients: Vec::new(), icon_path: lookup_icon(class_name) }
    }

    /// Appends one client window to this class.
    pub fn add_client(&mut self, client: WindowEntry)
        ensures
            final(self).clients@ == old(self).clients@.push(client),
            final(self).icon_path == old(self).icon_path,
    {
        self.clients.push(client)
    }
}

} // verus!
