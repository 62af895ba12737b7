//! Package specifications, versions, and version bounds.

use vstd::prelude::*;
use vstd::string::*;
use crate::text::{
    all_digits, append_u32, dec_rep, dec_value, find_char, find_idx, is_ident, is_ident_str,
    lemma_find_idx, parse_u32, push_char, spec_split, split_char, str_eq,
};

verus! {

/// Which element of a version triple an error concerns.
#[derive(Clone, Copy, PartialEq, Eq, Structural, Debug)]
pub enum VersionPart {
    /// The major version.
    Major,
    /// The minor version.
    Minor,
    /// The patch version.
    Patch,
}

/// What went wrong while reading or validating a package specification.
#[derive(Clone, Copy, PartialEq, Eq, Structural, Debug)]
pub enum PackageError {
    /// A version element was absent.
    MissingVersionPart(VersionPart),
    /// A version element was not a numeral that fits the version type.
    InvalidVersionPart(VersionPart),
    /// A version had a fourth component.
    ExtraVersionComponent,
    /// A package specification did not start with `@`.
    MissingAtSign,
    /// A package specification had no namespace.
    MissingNamespace,
    /// The namespace was not a valid identifier.
    InvalidNamespace,
    /// A package specification had no name.
    MissingName,
    /// The name was not a valid identifier.
    InvalidName,
    /// A package specification had no version.
    MissingVersion,
    /// A versionless package specification carried a version.
    UnexpectedVersion,
    /// A manifest was for a package of another name.
    MismatchedName,
    /// A manifest was for another version of the package.
    MismatchedVersion,
    /// The package requires a newer compiler than the current one.
    IncompatibleCompiler,
}

/// A package's version: a `major.minor.patch` triple.
#[derive(Clone, Copy, PartialEq, Eq, Structural, Hash, Debug)]
pub struct PackageVersion {
    /// The package's major version.
    pub major: u32,
    /// The package's minor version.
    pub minor: u32,
    /// The package's patch version.
    pub patch: u32,
}

/// A version bound for compatibility specification. Elements missing in the
/// bound are unconstrained.
#[derive(Clone, Copy, PartialEq, Eq, Structural, Hash, Debug)]
pub struct VersionBound {
    /// The bound's major version.
    pub major: u32,
    /// The bound's minor version.
    pub minor: Option<u32>,
    /// The bound's patch version. Can only be present if minor is too.
    pub patch: Option<u32>,
}

/// An `==` match of a version against a bound: elements missing in the bound
/// are ignored.
pub open spec fn spec_matches_eq(v: PackageVersion, b: VersionBound) -> bool {
    &&& v.major == b.major
    &&& (b.minor is Some ==> v.minor == b.minor->0)
    &&& (b.patch is Some ==> v.patch == b.patch->0)
}

/// A `>` match of a version against a bound: succeeds only if some version
/// element present in the bound is actually greater than that of the version.
pub open spec fn spec_matches_gt(v: PackageVersion, b: VersionBound) -> bool {
    if v.major != b.major {
        v.major > b.major
    } else if b.minor is None {
        false
    } else if v.minor != b.minor->0 {
        v.minor > b.minor->0
    } else if b.patch is None {
        false
    } else {
        v.patch > b.patch->0
    }
}

/// A `<` match of a version against a bound: succeeds only if some version
/// element present in the bound is actually less than that of the version.
pub open spec fn spec_matches_lt(v: PackageVersion, b: VersionBound) -> bool {
    if v.major != b.major {
        v.major < b.major
    } else if b.minor is None {
        false
    } else if v.minor != b.minor->0 {
        v.minor < b.minor->0
    } else if b.patch is None {
        false
    } else {
        v.patch < b.patch->0
    }
}

impl PackageVersion {
    /// The current compiler version.
    pub fn compiler() -> (r: Self)
        ensures
            r == (PackageVersion { major: 0u32, minor: 13u32, patch: 1u32 }),
    {
        Self { major: 0, minor: 13, patch: 1 }
    }

    /// Performs an `==` match with the given version bound. Version elements
    /// missing in the bound are ignored.
    pub fn matches_eq(&self, bound: &VersionBound) -> (r: bool)
        ensures
            r == spec_matches_eq(*self, *bound),
    {
        self.major == bound.major
            && (match bound.minor {
                Some(minor) => self.minor == minor,
                None => true,
            })
            && (match bound.patch {
                Some(patch) => self.patch == patch,
                None => true,
            })
    }

    /// Performs a `>` match with the given version bound. The match only
    /// succeeds if some version element in the bound is actually greater than
    /// that of the version.
    pub fn matches_gt(&self, bound: &VersionBound) -> (r: bool)
        ensures
            r == spec_matches_gt(*self, *bound),
    {
        if self.major != bound.major {
            return self.major > bound.major;
        }
        let minor = match bound.minor {
            Some(minor) => minor,
            None => {
                return false;
            },
        };
        if self.minor != minor {
            return self.minor > minor;
        }
        let patch = match bound.patch {
            Some(patch) => patch,
            None => {
                return false;
            },
        };
        if self.patch != patch {
            return self.patch > patch;
        }
        false
    }

    /// Performs a `<` match with the given version bound. The match only
    /// succeeds if some version element in the bound is actually less than
    /// that of the version.
    pub fn matches_lt(&self, bound: &VersionBound) -> (r: bool)
        ensures
            r == spec_matches_lt(*self, *bound),
    {
        if self.major != bound.major {
            return self.major < bound.major;
        }
        let minor = match bound.minor {
            Some(minor) => minor,
            None => {
                return false;
            },
        };
        if self.minor != minor {
            return self.minor < minor;
        }
        let patch = match bound.patch {
            Some(patch) => patch,
            None => {
                return false;
            },
        };
        if self.patch != patch {
            return self.patch < patch;
        }
        false
    }

    /// Performs a `>=` match with the given version bound. The match succeeds
    /// when either a `==` or `>` match does.
    pub fn matches_ge(&self, bound: &VersionBound) -> (r: bool)
        ensures
            r == (spec_matches_eq(*self, *bound) || spec_matches_gt(*self, *bound)),
    {
        self.matches_eq(bound) || self.matches_gt(bound)
    }

    /// Performs a `<=` match with the given version bound. The match succeeds
    /// when either a `==` or `<` match does.
    pub fn matches_le(&self, bound: &VersionBound) -> (r: bool)
        ensures
            r == (spec_matches_eq(*self, *bound) || spec_matches_lt(*self, *bound)),
    {
        self.matches_eq(bound) || self.matches_lt(bound)
    }
}

/// Whether a split-off piece of a version string is a numeral that fits.
pub open spec fn part_ok(p: Seq<char>) -> bool {
    p.len() > 0 && all_digits(p) && dec_value(p) <= u32::MAX as nat
}

/// What parsing `s` as a `major.minor.patch` version yields.
pub open spec fn spec_parse_version(s: Seq<char>) -> Result<PackageVersion, PackageError> {
    let parts = spec_split(s, '.');
    if parts[0].len() == 0 {
        Err(PackageError::MissingVersionPart(VersionPart::Major))
    } else if !part_ok(parts[0]) {
        Err(PackageError::InvalidVersionPart(VersionPart::Major))
    } else if parts.len() < 2 || parts[1].len() == 0 {
        Err(PackageError::MissingVersionPart(VersionPart::Minor))
    } else if !part_ok(parts[1]) {
        Err(PackageError::InvalidVersionPart(VersionPart::Minor))
    } else if parts.len() < 3 || parts[2].len() == 0 {
        Err(PackageError::MissingVersionPart(VersionPart::Patch))
    } else if !part_ok(parts[2]) {
        Err(PackageError::InvalidVersionPart(VersionPart::Patch))
    } else if parts.len() > 3 {
        Err(PackageError::ExtraVersionComponent)
    } else {
        Ok(
            PackageVersion {
                major: dec_value(parts[0]) as u32,
                minor: dec_value(parts[1]) as u32,
                patch: dec_value(parts[2]) as u32,
            },
        )
    }
}

/// The version the compiler itself reports, matched against `compiler`
/// bounds in manifests.
pub open spec fn spec_compiler() -> PackageVersion {
    PackageVersion { major: 0u32, minor: 13u32, patch: 1u32 }
}

/// The decimal rendering `major.minor.patch` of a version.
pub open spec fn spec_version_repr(v: PackageVersion) -> Seq<char> {
    dec_rep(v.major as nat) + seq!['.'] + dec_rep(v.minor as nat) + seq!['.'] + dec_rep(
        v.patch as nat,
    )
}

impl PackageVersion {
    /// Parses a version from a `major.minor.patch` numeral triple.
    pub fn from_str(s: &str) -> (r: Result<PackageVersion, PackageError>)
        ensures
            r == spec_parse_version(s@),
    {
        let parts = split_char(s, '.');
        proof {
            assert(parts@.len() == parts.deep_view().len());
        }
        if parts[0].as_str().is_empty() {
            return Err(PackageError::MissingVersionPart(VersionPart::Major));
        }
        let major = match parse_u32(parts[0].as_str()) {
            Some(n) => n,
            None => {
                return Err(PackageError::InvalidVersionPart(VersionPart::Major));
            },
        };
        if parts.len() < 2 || parts[1].as_str().is_empty() {
            return Err(PackageError::MissingVersionPart(VersionPart::Minor));
        }
        let minor = match parse_u32(parts[1].as_str()) {
            Some(n) => n,
            None => {
                return Err(PackageError::InvalidVersionPart(VersionPart::Minor));
            },
        };
        if parts.len() < 3 || parts[2].as_str().is_empty() {
            return Err(PackageError::MissingVersionPart(VersionPart::Patch));
        }
        let patch = match parse_u32(parts[2].as_str()) {
            Some(n) => n,
            None => {
                return Err(PackageError::InvalidVersionPart(VersionPart::Patch));
            },
        };
        if parts.len() > 3 {
            return Err(PackageError::ExtraVersionComponent);
        }
        Ok(PackageVersion { major, minor, patch })
    }

    /// Renders the version as `major.minor.patch`.
    pub fn repr(&self) -> (r: String)
        ensures
            r@ == spec_version_repr(*self),
    {
        let mut out = String::new();
        append_u32(&mut out, self.major);
        push_char(&mut out, '.');
        append_u32(&mut out, self.minor);
        push_char(&mut out, '.');
        append_u32(&mut out, self.patch);
        out
    }
}

/// What parsing `s` as a version bound yields: one to three numerals
/// separated by dots.
pub open spec fn spec_parse_bound(s: Seq<char>) -> Result<VersionBound, PackageError> {
    let parts = spec_split(s, '.');
    if !part_ok(parts[0]) {
        Err(PackageError::InvalidVersionPart(VersionPart::Major))
    } else if parts.len() >= 2 && !part_ok(parts[1]) {
        Err(PackageError::InvalidVersionPart(VersionPart::Minor))
    } else if parts.len() >= 3 && !part_ok(parts[2]) {
        Err(PackageError::InvalidVersionPart(VersionPart::Patch))
    } else if parts.len() > 3 {
        Err(PackageError::ExtraVersionComponent)
    } else {
        Ok(
            VersionBound {
                major: dec_value(parts[0]) as u32,
                minor: if parts.len() >= 2 {
                    Some(dec_value(parts[1]) as u32)
                } else {
                    None
                },
                patch: if parts.len() >= 3 {
                    Some(dec_value(parts[2]) as u32)
                } else {
                    None
                },
            },
        )
    }
}

/// The decimal rendering of a bound: the major version, then the minor and
/// patch versions where present.
pub open spec fn spec_bound_repr(b: VersionBound) -> Seq<char> {
    dec_rep(b.major as nat) + (if b.minor is Some {
        seq!['.'] + dec_rep(b.minor->0 as nat)
    } else {
        Seq::<char>::empty()
    }) + (if b.patch is Some {
        seq!['.'] + dec_rep(b.patch->0 as nat)
    } else {
        Seq::<char>::empty()
    })
}

impl VersionBound {
    /// Parses a bound from one to three dot-separated numerals.
    pub fn from_str(s: &str) -> (r: Result<VersionBound, PackageError>)
        ensures
            r == spec_parse_bound(s@),
    {
        let parts = split_char(s, '.');
        proof {
            assert(parts@.len() == parts.deep_view().len());
        }
        let major = match parse_u32(parts[0].as_str()) {
            Some(n) => n,
            None => {
                return Err(PackageError::InvalidVersionPart(VersionPart::Major));
            },
        };
        let minor = if parts.len() >= 2 {
            match parse_u32(parts[1].as_str()) {
                Some(n) => Some(n),
                None => {
                    return Err(PackageError::InvalidVersionPart(VersionPart::Minor));
                },
            }
        } else {
            None
        };
        let patch = if parts.len() >= 3 {
            match parse_u32(parts[2].as_str()) {
                Some(n) => Some(n),
                None => {
                    return Err(PackageError::InvalidVersionPart(VersionPart::Patch));
                },
            }
        } else {
            None
        };
        if parts.len() > 3 {
            return Err(PackageError::ExtraVersionComponent);
        }
        Ok(VersionBound { major, minor, patch })
    }

    /// Renders the bound: the major version, then minor and patch where
    /// present.
    pub fn repr(&self) -> (r: String)
        ensures
            r@ == spec_bound_repr(*self),
    {
        let mut out = String::new();
        append_u32(&mut out, self.major);
        if let Some(minor) = self.minor {
            push_char(&mut out, '.');
            append_u32(&mut out, minor);
        }
        if let Some(patch) = self.patch {
            push_char(&mut out, '.');
            append_u32(&mut out, patch);
        }
        out
    }
}

/// Identifies a package: `@namespace/name:version`.
#[derive(Clone, PartialEq, Eq, Hash, Debug)]
pub struct PackageSpec {
    /// The namespace the package lives in.
    pub namespace: String,
    /// The name of the package within its namespace.
    pub name: String,
    /// The package's version.
    pub version: PackageVersion,
}

/// Identifies a package, but not a specific version of it.
#[derive(Clone, PartialEq, Eq, Hash, Debug)]
pub struct VersionlessPackageSpec {
    /// The namespace the package lives in.
    pub namespace: String,
    /// The name of the package within its namespace.
    pub name: String,
}

/// The namespace piece of a package specification: what stands between the
/// leading `@` and the first `/`.
pub open spec fn spec_ns(s: Seq<char>) -> Seq<char> {
    let r = s.subrange(1, s.len() as int);
    r.subrange(0, find_idx(r, '/') as int)
}

/// What follows the namespace and its `/` separator.
pub open spec fn after_namespace(s: Seq<char>) -> Seq<char> {
    let r = s.subrange(1, s.len() as int);
    let i = find_idx(r, '/') as int;
    if i < r.len() {
        r.subrange(i + 1, r.len() as int)
    } else {
        Seq::<char>::empty()
    }
}

/// The name piece of a package specification: what stands between the
/// namespace's `/` and the first `:`.
pub open spec fn spec_pkg_name(s: Seq<char>) -> Seq<char> {
    let r = after_namespace(s);
    r.subrange(0, find_idx(r, ':') as int)
}

/// The version piece of a package specification: what follows the `:`.
pub open spec fn spec_version_str(s: Seq<char>) -> Seq<char> {
    let r = after_namespace(s);
    let j = find_idx(r, ':') as int;
    if j < r.len() {
        r.subrange(j + 1, r.len() as int)
    } else {
        Seq::<char>::empty()
    }
}

/// The error, if any, that reading `s` as a full package specification
/// reports; `None` when `s` is well-formed.
pub open spec fn spec_parse_spec_err(s: Seq<char>) -> Option<PackageError> {
    if s.len() == 0 || s[0] != '@' {
        Some(PackageError::MissingAtSign)
    } else if spec_ns(s).len() == 0 {
        Some(PackageError::MissingNamespace)
    } else if !is_ident(spec_ns(s)) {
        Some(PackageError::InvalidNamespace)
    } else if spec_pkg_name(s).len() == 0 {
        Some(PackageError::MissingName)
    } else if !is_ident(spec_pkg_name(s)) {
        Some(PackageError::InvalidName)
    } else if spec_version_str(s).len() == 0 {
        Some(PackageError::MissingVersion)
    } else {
        match spec_parse_version(spec_version_str(s)) {
            Ok(_) => None,
            Err(e) => Some(e),
        }
    }
}

/// The error, if any, that reading `s` as a versionless package
/// specification reports; `None` when `s` is well-formed.
pub open spec fn spec_parse_versionless_err(s: Seq<char>) -> Option<PackageError> {
    if s.len() == 0 || s[0] != '@' {
        Some(PackageError::MissingAtSign)
    } else if spec_ns(s).len() == 0 {
        Some(PackageError::MissingNamespace)
    } else if !is_ident(spec_ns(s)) {
        Some(PackageError::InvalidNamespace)
    } else if spec_pkg_name(s).len() == 0 {
        Some(PackageError::MissingName)
    } else if !is_ident(spec_pkg_name(s)) {
        Some(PackageError::InvalidName)
    } else if find_idx(after_namespace(s), ':') < after_namespace(s).len() {
        Some(PackageError::UnexpectedVersion)
    } else {
        None
    }
}

/// Reads the leading `@` and the namespace up to the first `/`, and returns
/// the namespace together with what follows the `/`.
fn parse_namespace<'a>(s: &'a str) -> (r: Result<(String, &'a str), PackageError>)
    ensures
        match r {
            Ok(p) => s@.len() > 0 && s@[0] == '@' && p.0@ == spec_ns(s@) && spec_ns(s@).len() > 0
                && is_ident(spec_ns(s@)) && p.1@ == after_namespace(s@),
            Err(e) => {
                if s@.len() == 0 || s@[0] != '@' {
                    e == PackageError::MissingAtSign
                } else if spec_ns(s@).len() == 0 {
                    e == PackageError::MissingNamespace
                } else {
                    !is_ident(spec_ns(s@)) && e == PackageError::InvalidNamespace
                }
            },
        },
{
    let n = s.unicode_len();
    if n == 0 || s.get_char(0) != '@' {
        return Err(PackageError::MissingAtSign);
    }
    let r1 = s.substring_char(1, n);
    proof {
        lemma_find_idx(r1@, '/');
    }
    let rn = r1.unicode_len();
    let i = find_char(r1, '/');
    let ns = r1.substring_char(0, i);
    if ns.is_empty() {
        return Err(PackageError::MissingNamespace);
    }
    if !is_ident_str(ns) {
        return Err(PackageError::InvalidNamespace);
    }
    let rest = if i < rn {
        r1.substring_char(i + 1, rn)
    } else {
        r1.substring_char(rn, rn)
    };
    proof {
        if i as nat >= r1@.len() {
            assert(rest@ =~= Seq::<char>::empty());
        }
    }
    Ok((ns.to_owned(), rest))
}

/// Reads the package name up to the first `:`, and returns the name together
/// with what follows the `:`.
fn parse_name<'a>(s: &'a str) -> (r: Result<(String, &'a str), PackageError>)
    ensures
        match r {
            Ok(p) => {
                let j = find_idx(s@, ':') as int;
                &&& p.0@ == s@.subrange(0, j)
                &&& p.0@.len() > 0
                &&& is_ident(p.0@)
                &&& p.1@ == (if j < s@.len() {
                    s@.subrange(j + 1, s@.len() as int)
                } else {
                    Seq::<char>::empty()
                })
            },
            Err(e) => {
                let name = s@.subrange(0, find_idx(s@, ':') as int);
                if name.len() == 0 {
                    e == PackageError::MissingName
                } else {
                    !is_ident(name) && e == PackageError::InvalidName
                }
            },
        },
{
    proof {
        lemma_find_idx(s@, ':');
    }
    let n = s.unicode_len();
    let j = find_char(s, ':');
    let name = s.substring_char(0, j);
    if name.is_empty() {
        return Err(PackageError::MissingName);
    }
    if !is_ident_str(name) {
        return Err(PackageError::InvalidName);
    }
    let rest = if j < n {
        s.substring_char(j + 1, n)
    } else {
        s.substring_char(n, n)
    };
    proof {
        if j as nat >= s@.len() {
            assert(rest@ =~= Seq::<char>::empty());
        }
    }
    Ok((name.to_owned(), rest))
}

/// Reads the version piece: it must be present and a well-formed version.
fn parse_version(s: &str) -> (r: Result<PackageVersion, PackageError>)
    ensures
        match r {
            Ok(v) => s@.len() > 0 && spec_parse_version(s@) == Ok::<
                PackageVersion,
                PackageError,
            >(v),
            Err(e) => {
                if s@.len() == 0 {
                    e == PackageError::MissingVersion
                } else {
                    spec_parse_version(s@) == Err::<PackageVersion, PackageError>(e)
                }
            },
        },
{
    if s.is_empty() {
        return Err(PackageError::MissingVersion);
    }
    PackageVersion::from_str(s)
}

impl PackageSpec {
    /// Parses a full package specification `@namespace/name:version`.
    pub fn from_str(s: &str) -> (r: Result<PackageSpec, PackageError>)
        ensures
            match r {
                Ok(p) => spec_parse_spec_err(s@) is None && p.namespace@ == spec_ns(s@)
                    && p.name@ == spec_pkg_name(s@) && spec_parse_version(spec_version_str(s@))
                    == Ok::<PackageVersion, PackageError>(p.version),
                Err(e) => spec_parse_spec_err(s@) == Some(e),
            },
    {
        let (namespace, rest) = match parse_namespace(s) {
            Ok(p) => p,
            Err(e) => {
                return Err(e);
            },
        };
        let (name, rest) = match parse_name(rest) {
            Ok(p) => p,
            Err(e) => {
                return Err(e);
            },
        };
        let version = match parse_version(rest) {
            Ok(v) => v,
            Err(e) => {
                return Err(e);
            },
        };
        Ok(PackageSpec { namespace, name, version })
    }

    /// Forgets the version of this specification.
    pub fn versionless(&self) -> (r: VersionlessPackageSpec)
        ensures
            r.namespace@ == self.namespace@,
            r.name@ == self.name@,
    {
        VersionlessPackageSpec { namespace: self.namespace.clone(), name: self.name.clone() }
    }

    /// Renders the specification as `@namespace/name:version`.
    pub fn repr(&self) -> (r: String)
        ensures
            r@ == seq!['@'] + self.namespace@ + seq!['/'] + self.name@ + seq![':']
                + spec_version_repr(self.version),
    {
        let mut out = String::new();
        push_char(&mut out, '@');
        out.append(self.namespace.as_str());
        push_char(&mut out, '/');
        out.append(self.name.as_str());
        push_char(&mut out, ':');
        let v = self.version.repr();
        out.append(v.as_str());
        out
    }
}

impl VersionlessPackageSpec {
    /// Parses a versionless package specification `@namespace/name`.
    pub fn from_str(s: &str) -> (r: Result<VersionlessPackageSpec, PackageError>)
        ensures
            match r {
                Ok(p) => spec_parse_versionless_err(s@) is None && p.namespace@ == spec_ns(s@)
                    && p.name@ == spec_pkg_name(s@),
                Err(e) => spec_parse_versionless_err(s@) == Some(e),
            },
    {
        let (namespace, rest) = match parse_namespace(s) {
            Ok(p) => p,
            Err(e) => {
                return Err(e);
            },
        };
        let (name, _tail) = match parse_name(rest) {
            Ok(p) => p,
            Err(e) => {
                return Err(e);
            },
        };
        proof {
            lemma_find_idx(rest@, ':');
        }
        let j = find_char(rest, ':');
        if j < rest.unicode_len() {
            return Err(PackageError::UnexpectedVersion);
        }
        Ok(VersionlessPackageSpec { namespace, name })
    }

    /// Fills in the `version` to get a complete [`PackageSpec`].
    pub fn at(self, version: PackageVersion) -> (r: PackageSpec)
        ensures
            r.namespace@ == self.namespace@,
            r.name@ == self.name@,
            r.version == version,
    {
        PackageSpec { namespace: self.namespace, name: self.name, version }
    }

    /// Renders the specification as `@namespace/name`.
    pub fn repr(&self) -> (r: String)
        ensures
            r@ == seq!['@'] + self.namespace@ + seq!['/'] + self.name@,
    {
        let mut out = String::new();
        push_char(&mut out, '@');
        out.append(self.namespace.as_str());
        push_char(&mut out, '/');
        out.append(self.name.as_str());
        out
    }
}

/// The `[template]` key in a manifest.
#[derive(Clone, PartialEq, Eq, Hash, Debug)]
pub struct TemplateInfo {
    /// The path of the starting point within the package.
    pub path: String,
    /// The path of the entrypoint relative to the starting point's `path`.
    pub entrypoint: String,
}

/// The `[package]` key in a manifest.
#[derive(Clone, PartialEq, Eq, Hash, Debug)]
pub struct PackageInfo {
    /// The name of the package within its namespace.
    pub name: String,
    /// The package's version.
    pub version: PackageVersion,
    /// The path of the entrypoint into the package.
    pub entrypoint: String,
    /// The minimum required compiler version for the package.
    pub compiler: Option<VersionBound>,
}

/// A parsed package manifest.
#[derive(Clone, PartialEq, Eq, Hash, Debug)]
pub struct PackageManifest {
    /// Details about the package itself.
    pub package: PackageInfo,
    /// Details about the template, if the package is one.
    pub template: Option<TemplateInfo>,
}

/// The error, if any, that validating manifest `m` against specification `s`
/// reports; `None` when the manifest is indeed for that package.
pub open spec fn spec_validate(m: PackageManifest, s: PackageSpec) -> Option<PackageError> {
    if m.package.name@ != s.name@ {
        Some(PackageError::MismatchedName)
    } else if m.package.version != s.version {
        Some(PackageError::MismatchedVersion)
    } else if m.package.compiler is Some && !(spec_matches_eq(spec_compiler(), m.package.compiler->0)
        || spec_matches_gt(spec_compiler(), m.package.compiler->0)) {
        Some(PackageError::IncompatibleCompiler)
    } else {
        None
    }
}

impl PackageManifest {
    /// Ensure that this manifest is indeed for the specified package: the
    /// names and versions must agree, and a required compiler version must
    /// not exceed the current one.
    pub fn validate(&self, spec: &PackageSpec) -> (r: Result<(), PackageError>)
        ensures
            match r {
                Ok(()) => spec_validate(*self, *spec) is None,
                Err(e) => spec_validate(*self, *spec) == Some(e),
            },
    {
        if !str_eq(self.package.name.as_str(), spec.name.as_str()) {
            return Err(PackageError::MismatchedName);
        }
        if self.package.version != spec.version {
            return Err(PackageError::MismatchedVersion);
        }
        if let Some(required) = self.package.compiler {
            let current = PackageVersion::compiler();
            if !current.matches_ge(&required) {
                return Err(PackageError::IncompatibleCompiler);
            }
        }
        Ok(())
    }
}

} // verus!
