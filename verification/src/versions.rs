//! The table of schema versions: which version of the graph's schema each
//! media type stands for, and which media type a client gets that names none.

use crate::errors::{GraphError, GraphErrorView};
use crate::string_map::StringMap;
use vstd::prelude::*;
use vstd::string::StringExecFns;

verus! {

/// The media type of the oldest schema of this service, which a client gets
/// that states no preference.
pub const MIN_CINCINNATI_VERSION: &'static str = "application/vnd.redhat.cincinnati.v1+json";

/// The mathematical value of a [`VersionTable`].
pub struct VersionTableView {
    pub versions: Map<Seq<char>, i32>,
    pub default_media_type: Seq<char>,
}

/// The version that the table's default media type stands for, if the table
/// has it.
pub open spec fn min_version_of(table: VersionTableView) -> Option<i32> {
    if table.versions.contains_key(table.default_media_type) {
        Some(table.versions[table.default_media_type])
    } else {
        None
    }
}

/// The schema version for a negotiated media type. A request that names no
/// media type, or one that the table does not have, gets the minimum version.
/// Without a minimum version there is none for any request.
pub open spec fn resolved_version(table: VersionTableView, content_type: Option<Seq<char>>) -> Option<
    i32,
> {
    match min_version_of(table) {
        None => None,
        Some(min) => Some(
            match content_type {
                Some(media_type) if table.versions.contains_key(media_type) => table.versions[media_type],
                _ => min,
            },
        ),
    }
}

/// The table of this service: one media type, for version 1, which is also
/// the default.
pub open spec fn cincinnati_versions() -> VersionTableView {
    VersionTableView {
        versions: Map::<Seq<char>, i32>::empty().insert(MIN_CINCINNATI_VERSION@, 1i32),
        default_media_type: MIN_CINCINNATI_VERSION@,
    }
}

/// Which schema version each media type stands for. Every version is
/// positive.
#[derive(Debug)]
pub struct VersionTable {
    versions: StringMap<i32>,
    default_media_type: String,
}

impl View for VersionTable {
    type V = VersionTableView;

    closed spec fn view(&self) -> VersionTableView {
        VersionTableView {
            versions: self.versions@,
            default_media_type: self.default_media_type@,
        }
    }
}

impl VersionTable {
    #[verifier::type_invariant]
    spec fn well_formed(&self) -> bool {
        forall|media_type: Seq<char>| #[trigger]
            self.versions@.contains_key(media_type) ==> self.versions@[media_type] >= 1
    }

    /// The table without media types, whose default is `default_media_type`.
    pub fn new(default_media_type: String) -> (r: Self)
        ensures
            r@.versions == Map::<Seq<char>, i32>::empty(),
            r@.default_media_type == default_media_type@,
    {
        VersionTable { versions: StringMap::new(), default_media_type }
    }

    /// The table of this service.
    pub fn cincinnati() -> (r: Self)
        ensures
            r@ == cincinnati_versions(),
    {
        let mut versions: StringMap<i32> = StringMap::new();
        versions.insert(String::from_str(MIN_CINCINNATI_VERSION), 1);
        VersionTable { versions, default_media_type: String::from_str(MIN_CINCINNATI_VERSION) }
    }

    /// Lets `media_type` stand for `version` from now on. A version below 1
    /// is refused, and the table stays as it was.
    pub fn insert(&mut self, media_type: String, version: i32) -> (r: bool)
        ensures
            r == (version >= 1),
            final(self)@.default_media_type == old(self)@.default_media_type,
            final(self)@.versions == if version >= 1 {
                old(self)@.versions.insert(media_type@, version)
            } else {
                old(self)@.versions
            },
    {
        proof {
            use_type_invariant(&*self);
        }
        if version < 1 {
            return false;
        }
        let mut versions: StringMap<i32> = StringMap::new();
        std::mem::swap(&mut self.versions, &mut versions);
        versions.insert(media_type, version);
        self.versions = versions;
        true
    }

    /// The version that `media_type` stands for, if the table has it.
    pub fn get(&self, media_type: &str) -> (r: Option<i32>)
        ensures
            r == if self@.versions.contains_key(media_type@) {
                Some(self@.versions[media_type@])
            } else {
                None::<i32>
            },
            r matches Some(version) ==> version >= 1,
    {
        proof {
            use_type_invariant(self);
        }
        match self.versions.get(media_type) {
            Some(version) => Some(*version),
            None => None,
        }
    }

    /// The media type of a client that names none.
    pub fn default_media_type(&self) -> (r: &String)
        ensures
            r@ == self@.default_media_type,
    {
        &self.default_media_type
    }

    /// The version of the default media type. A table that lacks its own
    /// default is misconfigured, and has none.
    pub fn min_version(&self) -> (r: Result<i32, GraphError>)
        ensures
            match r {
                Ok(version) => min_version_of(self@) == Some(version) && version >= 1,
                Err(e) => min_version_of(self@) is None && e@
                    == GraphErrorView::MissingMinimumVersion,
            },
    {
        match self.get(self.default_media_type.as_str()) {
            Some(version) => Ok(version),
            None => Err(GraphError::MissingMinimumVersion),
        }
    }

    /// The schema version for a negotiated media type.
    pub fn resolve(&self, content_type: Option<&str>) -> (r: Result<i32, GraphError>)
        ensures
            match r {
                Ok(version) => resolved_version(
                    self@,
                    match content_type {
                        Some(media_type) => Some(media_type@),
                        None => None,
                    },
                ) == Some(version) && version >= 1,
                Err(e) => min_version_of(self@) is None && e@
                    == GraphErrorView::MissingMinimumVersion,
            },
    {
        let min_version = match self.min_version() {
            Ok(version) => version,
            Err(e) => {
                return Err(e);
            },
        };
        let version = match content_type {
            None => min_version,
            Some(media_type) => match self.get(media_type) {
                Some(version) => version,
                None => min_version,
            },
        };
        Ok(version)
    }
}

/// By the table of this service every request gets version 1, whatever
/// media type it names.
pub proof fn lemma_cincinnati_resolves_to_one(content_type: Option<Seq<char>>)
    ensures
        resolved_version(cincinnati_versions(), content_type) == Some(1i32),
        min_version_of(cincinnati_versions()) == Some(1i32),
{
    let table = cincinnati_versions();
    assert(table.versions.contains_key(MIN_CINCINNATI_VERSION@));
    match content_type {
        Some(media_type) => {
            if table.versions.contains_key(media_type) {
                assert(media_type == MIN_CINCINNATI_VERSION@);
            }
        },
        None => {},
    }
}

} // verus!
