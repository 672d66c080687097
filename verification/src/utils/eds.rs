//! Sources as the backend advertises them. A source is described by a key
//! file; reading the key file is left to the caller, and what it says under
//! the keys that matter is judged here.

use vstd::prelude::*;
use zbus::zvariant::OwnedObjectPath;

verus! {

#[verifier::external_type_specification]
#[verifier::external_body]
pub struct ExOwnedObjectPath(zbus::zvariant::OwnedObjectPath);

/// `Clone` of `OwnedObjectPath`: the copy is the same path as the value it
/// was made from.
pub assume_specification[ <zbus::zvariant::OwnedObjectPath as Clone>::clone ](
    source: &zbus::zvariant::OwnedObjectPath,
) -> (copy: zbus::zvariant::OwnedObjectPath)
    ensures
        copy == *source,
;

/// What the key file of a source says. A value is `None` where the key is
/// missing or does not hold a value of its type.
#[derive(Debug, Clone, PartialEq, Eq)]
pub struct SourceData {
    /// `Enabled` in the group `Data Source`.
    pub enabled: Option<bool>,
    /// `DisplayName` in the group `Data Source`.
    pub display_name: Option<String>,
    /// Whether there is a group `Calendar`.
    pub has_calendar: bool,
    /// `BackendName` in the group `Calendar`.
    pub backend_name: Option<String>,
}

/// An enabled source that is backed by a calendar.
#[derive(Debug)]
pub struct SourceInfo {
    pub uid: String,
    pub path: OwnedObjectPath,
    pub display_name: String,
    pub enabled: bool,
    pub backend_name: String,
}

/// The text of `value`, or `fallback` where there is none.
pub open spec fn text_or(value: Option<String>, fallback: Seq<char>) -> Seq<char> {
    match value {
        Some(text) => text@,
        None => fallback,
    }
}

impl SourceData {
    /// The source is enabled and backed by a calendar. A source that does not
    /// say whether it is enabled is not.
    pub open spec fn accepted(self) -> bool {
        self.enabled == Some(true) && self.has_calendar
    }
}

/// Judges the source `uid` at `path` by what its key file says. `data` is
/// `None` where the key file could not be read at all.
///
/// The result is `None` for a key file that could not be read, for a source
/// that is not enabled, and for one without the group `Calendar`. Any other
/// source is described, with `Unknown` for a missing display name and
/// `unknown` for a missing backend name.
pub fn parse_source_data(path: OwnedObjectPath, uid: String, data: Option<SourceData>) -> (info:
    Option<SourceInfo>)
    ensures
        match data {
            Some(d) => if d.accepted() {
                &&& info.is_some()
                &&& info.unwrap().uid@ == uid@
                &&& info.unwrap().path == path
                &&& info.unwrap().display_name@ == text_or(d.display_name, "Unknown"@)
                &&& info.unwrap().enabled
                &&& info.unwrap().backend_name@ == text_or(d.backend_name, "unknown"@)
            } else {
                info.is_none()
            },
            None => info.is_none(),
        },
{
    let data = match data {
        Some(data) => data,
        None => {
            return None;
        },
    };
    let enabled = match data.enabled {
        Some(enabled) => enabled,
        None => false,
    };
    if !enabled {
        return None;
    }
    let display_name = match data.display_name {
        Some(name) => name,
        None => "Unknown".to_owned(),
    };
    let backend_name = if data.has_calendar {
        match data.backend_name {
            Some(name) => name,
            None => "unknown".to_owned(),
        }
    } else {
        return None;
    };
    Some(SourceInfo { uid, path, display_name, enabled, backend_name })
}

/// An object that the backend lists: where it is, how it is called, and
/// what its key file says, or `None` where the key file could not be read.
pub struct SourceObject {
    pub path: OwnedObjectPath,
    pub uid: String,
    pub data: Option<SourceData>,
}

/// A source description as text values.
pub struct SourceInfoView {
    pub uid: Seq<char>,
    pub path: OwnedObjectPath,
    pub display_name: Seq<char>,
    pub enabled: bool,
    pub backend_name: Seq<char>,
}

impl View for SourceInfo {
    type V = SourceInfoView;

    open spec fn view(&self) -> SourceInfoView {
        SourceInfoView {
            uid: self.uid@,
            path: self.path,
            display_name: self.display_name@,
            enabled: self.enabled,
            backend_name: self.backend_name@,
        }
    }
}

impl Clone for SourceInfo {
    fn clone(&self) -> (copy: SourceInfo)
        ensures
            copy@ == self@,
    {
        SourceInfo {
            uid: self.uid.clone(),
            path: self.path.clone(),
            display_name: self.display_name.clone(),
            enabled: self.enabled,
            backend_name: self.backend_name.clone(),
        }
    }
}

impl SourceObject {
    /// The description of the object as a source, if it is an enabled source
    /// backed by a calendar.
    pub open spec fn described(self) -> Option<SourceInfoView> {
        match self.data {
            Some(d) => if d.accepted() {
                Some(
                    SourceInfoView {
                        uid: self.uid@,
                        path: self.path,
                        display_name: text_or(d.display_name, "Unknown"@),
                        enabled: true,
                        backend_name: text_or(d.backend_name, "unknown"@),
                    },
                )
            } else {
                None
            },
            None => None,
        }
    }
}

/// The descriptions of those of `objects` that are enabled sources backed by
/// a calendar, in the order of the objects.
pub open spec fn described_sources(objects: Seq<SourceObject>) -> Seq<SourceInfoView>
    decreases objects.len(),
{
    if objects.len() == 0 {
        Seq::empty()
    } else {
        let before = described_sources(objects.drop_last());
        match objects.last().described() {
            Some(info) => before.push(info),
            None => before,
        }
    }
}

/// The views of a sequence of source descriptions.
pub open spec fn source_views(infos: Seq<SourceInfo>) -> Seq<SourceInfoView> {
    Seq::new(infos.len(), |i: int| infos[i]@)
}

/// Picks from what the backend lists the enabled sources that are backed by
/// a calendar, and describes each. The order of the list is kept.
pub fn retrieve_resources(objects: Vec<SourceObject>) -> (sources: Vec<SourceInfo>)
    ensures
        source_views(sources@) == described_sources(objects@),
{
    let mut sources: Vec<SourceInfo> = Vec::new();
    let ghost all = objects@;
    assert(source_views(sources@) =~= described_sources(all.take(0)));
    for object in it: objects
        invariant
            it.seq() == all,
            source_views(sources@) == described_sources(all.take(it.index() as int)),
    {
        let ghost i = it.index() as int;
        let ghost before = source_views(sources@);
        assert(all.take(i + 1).drop_last() =~= all.take(i));
        assert(all.take(i + 1).last() == object);
        match parse_source_data(object.path, object.uid, object.data) {
            Some(info) => {
                sources.push(info);
                assert(source_views(sources@) =~= before.push(info@));
            },
            None => {},
        }
    }
    assert(all.take(all.len() as int) =~= all);
    sources
}

} // verus!
