//! The application-entry profile: the typed fields of the `Desktop Entry` group.
use vstd::prelude::*;

use crate::define_group::{field_bad, get_optional, optional_field};
use crate::document::{DesktopFile, DocMap, Group, GroupMap};
use crate::parser::ParseError;
use crate::value::{value_error, FromRaw};

pub use crate::exec::{Exec, ExecArgument};

verus! {

/// What can go wrong when a document is read as a desktop entry.
#[derive(Debug, Clone, PartialEq, Eq)]
pub enum DesktopEntryError {
    /// A value does not follow the grammar of its type.
    Parse(ParseError),
    /// The document has no `Desktop Entry` group.
    DesktopEntryGroupMissing,
    /// A required key is absent.
    RequiredKeyMissing(&'static str),
}

/// The mathematical value of a [`DesktopEntryError`].
pub enum EntryErrorView {
    Parse(ParseError),
    DesktopEntryGroupMissing,
    RequiredKeyMissing(Seq<char>),
}

impl View for DesktopEntryError {
    type V = EntryErrorView;

    open spec fn view(&self) -> EntryErrorView {
        match self {
            DesktopEntryError::Parse(e) => EntryErrorView::Parse(*e),
            DesktopEntryError::DesktopEntryGroupMissing => EntryErrorView::DesktopEntryGroupMissing,
            DesktopEntryError::RequiredKeyMissing(k) => EntryErrorView::RequiredKeyMissing(k@),
        }
    }
}

/// The error of a value that fails to decode.
pub open spec fn parse_failure() -> EntryErrorView {
    EntryErrorView::Parse(value_error())
}

/// An optional field: absent, or present and decoded.
fn get_optional_value<V: FromRaw>(group: &Group, key: &str) -> (r: Result<Option<V>, DesktopEntryError>)
    ensures
        field_bad::<V>(group@, key@) ==> (r matches Err(e) && e@ == parse_failure()),
        !field_bad::<V>(group@, key@) ==> (r matches Ok(f) && optional_field(group@, key@, f)),
{
    match get_optional::<V>(group, key) {
        Ok(f) => Ok(f),
        Err(e) => Err(DesktopEntryError::Parse(e)),
    }
}

/// A required field: present and decoded.
fn get_required_value<V: FromRaw>(group: &Group, key: &'static str) -> (r: Result<V, DesktopEntryError>)
    ensures
        !group@.contains_key(key@) ==> (r matches Err(e) && e@ == EntryErrorView::RequiredKeyMissing(key@)),
        field_bad::<V>(group@, key@) ==> (r matches Err(e) && e@ == parse_failure()),
        group@.contains_key(key@) && !field_bad::<V>(group@, key@) ==> (r matches Ok(v) && V::decodes(group@[key@], v)),
{
    match get_optional_value::<V>(group, key) {
        Ok(Some(v)) => Ok(v),
        Ok(None) => Err(DesktopEntryError::RequiredKeyMissing(key)),
        Err(e) => Err(e),
    }
}

/// The keys that every desktop entry may have.
#[derive(Debug, Clone)]
pub struct DesktopEntryCommon {
    pub version: Option<String>,
    pub name: String,
    pub generic_name: Option<String>,
    pub no_display: Option<bool>,
    pub comment: Option<String>,
    pub icon: Option<String>,
    pub hidden: Option<bool>,
    pub only_show_in: Option<Vec<String>>,
    pub not_show_in: Option<Vec<String>>,
}

/// The first error met when the common keys of `g` are read in field order, if any.
pub open spec fn common_error(g: GroupMap) -> Option<EntryErrorView> {
    if field_bad::<String>(g, "Version"@) {
        Some(parse_failure())
    } else if !g.contains_key("Name"@) {
        Some(EntryErrorView::RequiredKeyMissing("Name"@))
    } else if field_bad::<String>(g, "Name"@) || field_bad::<String>(g, "GenericName"@)
        || field_bad::<bool>(g, "NoDisplay"@) || field_bad::<String>(g, "Comment"@)
        || field_bad::<String>(g, "Icon"@) || field_bad::<bool>(g, "Hidden"@) || field_bad::<
        Vec<String>,
    >(g, "OnlyShowIn"@) || field_bad::<Vec<String>>(g, "NotShowIn"@) {
        Some(parse_failure())
    } else {
        None
    }
}

impl DesktopEntryCommon {
    /// Every field holds what its key decodes to.
    pub open spec fn reads(&self, g: GroupMap) -> bool {
        &&& optional_field(g, "Version"@, self.version)
        &&& g.contains_key("Name"@) && String::decodes(g["Name"@], self.name)
        &&& optional_field(g, "GenericName"@, self.generic_name)
        &&& optional_field(g, "NoDisplay"@, self.no_display)
        &&& optional_field(g, "Comment"@, self.comment)
        &&& optional_field(g, "Icon"@, self.icon)
        &&& optional_field(g, "Hidden"@, self.hidden)
        &&& optional_field(g, "OnlyShowIn"@, self.only_show_in)
        &&& optional_field(g, "NotShowIn"@, self.not_show_in)
    }

    pub fn try_from_group(group: &Group) -> (r: Result<DesktopEntryCommon, DesktopEntryError>)
        ensures
            match common_error(group@) {
                Some(e) => r matches Err(x) && x@ == e,
                None => r matches Ok(c) && c.reads(group@),
            },
    {
        Ok(
            DesktopEntryCommon {
                version: get_optional_value(group, "Version")?,
                name: get_required_value(group, "Name")?,
                generic_name: get_optional_value(group, "GenericName")?,
                no_display: get_optional_value(group, "NoDisplay")?,
                comment: get_optional_value(group, "Comment")?,
                icon: get_optional_value(group, "Icon")?,
                hidden: get_optional_value(group, "Hidden")?,
                only_show_in: get_optional_value(group, "OnlyShowIn")?,
                not_show_in: get_optional_value(group, "NotShowIn")?,
            },
        )
    }
}

/// The keys of an entry of type `Application`.
#[derive(Debug, Clone)]
pub struct DesktopEntryApplication {
    pub try_exec: Option<String>,
    pub exec_line: Option<Exec>,
    pub path: Option<String>,
    pub terminal: Option<bool>,
    pub actions: Option<Vec<String>>,
    pub mime_type: Option<Vec<String>>,
    pub categories: Option<Vec<String>>,
    pub keywords: Option<Vec<String>>,
    pub startup_notify: Option<bool>,
    pub startup_wm_class: Option<String>,
    pub prefers_non_default_gpu: Option<bool>,
    pub single_main_window: Option<bool>,
}

/// Whether some application key of `g` is present and malformed.
pub open spec fn application_bad(g: GroupMap) -> bool {
    field_bad::<String>(g, "TryExec"@) || field_bad::<Exec>(g, "Exec"@) || field_bad::<String>(
        g,
        "Path"@,
    ) || field_bad::<bool>(g, "Terminal"@) || field_bad::<Vec<String>>(g, "Actions"@)
        || field_bad::<Vec<String>>(g, "MimeType"@) || field_bad::<Vec<String>>(g, "Categories"@)
        || field_bad::<Vec<String>>(g, "Keywords"@) || field_bad::<bool>(g, "StartupNotify"@)
        || field_bad::<String>(g, "StartupWMClass"@) || field_bad::<bool>(
        g,
        "PrefersNonDefaultGPU"@,
    ) || field_bad::<bool>(g, "SingleMainWindow"@)
}

impl DesktopEntryApplication {
    /// Every field holds what its key decodes to.
    pub open spec fn reads(&self, g: GroupMap) -> bool {
        &&& optional_field(g, "TryExec"@, self.try_exec)
        &&& optional_field(g, "Exec"@, self.exec_line)
        &&& optional_field(g, "Path"@, self.path)
        &&& optional_field(g, "Terminal"@, self.terminal)
        &&& optional_field(g, "Actions"@, self.actions)
        &&& optional_field(g, "MimeType"@, self.mime_type)
        &&& optional_field(g, "Categories"@, self.categories)
        &&& optional_field(g, "Keywords"@, self.keywords)
        &&& optional_field(g, "StartupNotify"@, self.startup_notify)
        &&& optional_field(g, "StartupWMClass"@, self.startup_wm_class)
        &&& optional_field(g, "PrefersNonDefaultGPU"@, self.prefers_non_default_gpu)
        &&& optional_field(g, "SingleMainWindow"@, self.single_main_window)
    }

    pub fn try_from_group(group: &Group) -> (r: Result<DesktopEntryApplication, DesktopEntryError>)
        ensures
            application_bad(group@) ==> (r matches Err(x) && x@ == parse_failure()),
            !application_bad(group@) ==> (r matches Ok(a) && a.reads(group@)),
    {
        Ok(
            DesktopEntryApplication {
                try_exec: get_optional_value(group, "TryExec")?,
                exec_line: get_optional_value(group, "Exec")?,
                path: get_optional_value(group, "Path")?,
                terminal: get_optional_value(group, "Terminal")?,
                actions: get_optional_value(group, "Actions")?,
                mime_type: get_optional_value(group, "MimeType")?,
                categories: get_optional_value(group, "Categories")?,
                keywords: get_optional_value(group, "Keywords")?,
                startup_notify: get_optional_value(group, "StartupNotify")?,
                startup_wm_class: get_optional_value(group, "StartupWMClass")?,
                prefers_non_default_gpu: get_optional_value(group, "PrefersNonDefaultGPU")?,
                single_main_window: get_optional_value(group, "SingleMainWindow")?,
            },
        )
    }
}

/// The type-specific keys of an entry.
#[derive(Debug, Clone)]
pub enum DesktopEntryType {
    Unknown,
    Application(DesktopEntryApplication),
}

impl DesktopEntryType {
    /// Reads the keys of type `ty`; a type other than `Application` has none.
    pub fn try_from_group(ty: &str, group: &Group) -> (r: Result<DesktopEntryType, DesktopEntryError>)
        ensures
            ty@ == "Application"@ && application_bad(group@) ==> (r matches Err(x) && x@
                == parse_failure()),
            ty@ == "Application"@ && !application_bad(group@) ==> (r matches Ok(
                DesktopEntryType::Application(a),
            ) && a.reads(group@)),
            ty@ != "Application"@ ==> (r matches Ok(DesktopEntryType::Unknown)),
    {
        let application = "Application".to_owned();
        if ty.to_owned() == application {
            Ok(DesktopEntryType::Application(DesktopEntryApplication::try_from_group(group)?))
        } else {
            Ok(DesktopEntryType::Unknown)
        }
    }
}

/// A desktop entry: its group, the common keys and the keys of its type.
#[derive(Debug)]
pub struct DesktopEntry<'file> {
    pub group: &'file Group,
    pub common: DesktopEntryCommon,
    pub for_type: DesktopEntryType,
}

/// The first error met when `doc` is read as a desktop entry, if any.
pub open spec fn entry_error(doc: DocMap) -> Option<EntryErrorView> {
    if !doc.contains_key("Desktop Entry"@) {
        Some(EntryErrorView::DesktopEntryGroupMissing)
    } else {
        let g = doc["Desktop Entry"@];
        if !g.contains_key("Type"@) {
            Some(EntryErrorView::RequiredKeyMissing("Type"@))
        } else if field_bad::<String>(g, "Type"@) {
            Some(parse_failure())
        } else {
            match common_error(g) {
                Some(e) => Some(e),
                None => if g["Type"@] == "Application"@ && application_bad(g) {
                    Some(parse_failure())
                } else {
                    None
                },
            }
        }
    }
}

impl<'file> DesktopEntry<'file> {
    /// Reads the `Desktop Entry` group of `file`: its `Type`, the common keys, then the keys of
    /// its type.
    pub fn try_from_file(file: &'file DesktopFile) -> (r: Result<DesktopEntry<'file>, DesktopEntryError>)
        ensures
            match entry_error(file@) {
                Some(e) => r matches Err(x) && x@ == e,
                None => r matches Ok(d) && {
                    let g = file@["Desktop Entry"@];
                    &&& d.group@ == g
                    &&& d.common.reads(g)
                    &&& g["Type"@] == "Application"@ ==> (d.for_type matches DesktopEntryType::Application(a) && a.reads(g))
                    &&& g["Type"@] != "Application"@ ==> (d.for_type matches DesktopEntryType::Unknown)
                },
            },
    {
        let group = match file.group("Desktop Entry") {
            Some(g) => g,
            None => {
                return Err(DesktopEntryError::DesktopEntryGroupMissing);
            },
        };
        let ty: String = get_required_value(group, "Type")?;
        let common = DesktopEntryCommon::try_from_group(group)?;
        let for_type = DesktopEntryType::try_from_group(ty.as_str(), group)?;
        Ok(DesktopEntry { group, common, for_type })
    }
}

} // verus!
