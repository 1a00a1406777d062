//! The Semver version type and functions.

use crate::models::error::{Error, Result};
use crate::models::semver::{
    all_alnum_dash, all_alpha_dash, alnum_dash_in, alpha_dash_in, is_best_split, lemma_best_split_unique,
    lemma_digit_run_end, lemma_semver_text_parts, parse_u32_digits, semver_match, semver_parts,
    semver_split, semver_text, tail_ranges, valid_split,
};
use crate::text::{
    all_digits, append_chars, chars_range_to_string, chars_to_string, dec, digits_in, digits_value,
    lemma_dec_digits, str_to_chars, u32_to_dec,
};
use core::cmp::Ordering;
use vstd::prelude::*;
use vstd::string::StringExecFns;

verus! {

/// Current Semver version of the library.
pub const VERSION: &'static str = "0.1.0";

/// Pattern of a numeric version.
pub const NUMERIC_VERSION: &'static str = "^[0-9]*$";

/// Pattern of a prerelease version.
pub const PRERELEASE_VERSION: &'static str = "^[A-Za-z-]*$";

/// Pattern of a buildmeta version.
pub const BUILDMETA_VERSION: &'static str = "^[0-9A-Za-z-]*$";

/// Pattern of a Semver version.
pub const SEMVER_VERSION: &'static str = "^(?P<major>[0-9]*).(?P<minor>[0-9]*).(?P<patch>[0-9]*)(-(?P<prerelease>[A-Za-z-]+))?(\\+(?P<buildmeta>[0-9A-Za-z-]+))?$";

/// Type used to represent a Semver version.
#[derive(Clone, Debug)]
pub struct Version {
    /// Semver version major. Used for API breaking changes.
    pub major: u32,
    /// Semver version minor. Used for backward-compatible API changes.
    pub minor: u32,
    /// Semver version patch. Used for changes not affecting the API.
    pub patch: u32,
    /// Semver version prerelease. Used in prereleases. Optional.
    pub prerelease: String,
    /// Semver version buildmeta. Build information. Optional.
    pub buildmeta: String,
}

/// The mathematical value of a `Version`.
pub struct VersionView {
    pub major: u32,
    pub minor: u32,
    pub patch: u32,
    pub prerelease: Seq<char>,
    pub buildmeta: Seq<char>,
}

impl View for Version {
    type V = VersionView;

    open spec fn view(&self) -> VersionView {
        VersionView {
            major: self.major,
            minor: self.minor,
            patch: self.patch,
            prerelease: self.prerelease@,
            buildmeta: self.buildmeta@,
        }
    }
}

/// A version whose prerelease and buildmeta follow the Semver grammar.
pub open spec fn version_valid(v: VersionView) -> bool {
    all_alpha_dash(v.prerelease) && all_alnum_dash(v.buildmeta)
}

/// The Semver string of a version.
pub open spec fn version_text(v: VersionView) -> Seq<char> {
    semver_text(v.major as nat, v.minor as nat, v.patch as nat, v.prerelease, v.buildmeta)
}

/// The numeric groups of a matching string are non empty and fit in a `u32`.
pub open spec fn semver_numbers_fit(s: Seq<char>) -> bool {
    let p = semver_parts(s);
    &&& p.major.len() > 0 && digits_value(p.major) <= u32::MAX
    &&& p.minor.len() > 0 && digits_value(p.minor) <= u32::MAX
    &&& p.patch.len() > 0 && digits_value(p.patch) <= u32::MAX
}

/// The version that a string parses to, if any.
pub open spec fn parse_version(s: Seq<char>) -> Option<VersionView> {
    if semver_match(s) && semver_numbers_fit(s) {
        let p = semver_parts(s);
        Some(
            VersionView {
                major: digits_value(p.major) as u32,
                minor: digits_value(p.minor) as u32,
                patch: digits_value(p.patch) as u32,
                prerelease: p.prerelease,
                buildmeta: p.buildmeta,
            },
        )
    } else {
        None
    }
}

/// The outcome of comparing two values.
#[derive(Clone, Copy, Debug, PartialEq, Eq, Structural)]
pub enum Order {
    Less,
    Equal,
    Greater,
}

/// The `Ordering` that an `Order` stands for.
pub open spec fn to_ordering(o: Order) -> Ordering {
    match o {
        Order::Less => Ordering::Less,
        Order::Equal => Ordering::Equal,
        Order::Greater => Ordering::Greater,
    }
}

/// Lexicographic order of character strings, as `str::cmp` orders them.
pub open spec fn chars_order(a: Seq<char>, b: Seq<char>) -> Order
    decreases a.len(),
{
    if a.len() == 0 {
        if b.len() == 0 {
            Order::Equal
        } else {
            Order::Less
        }
    } else if b.len() == 0 {
        Order::Greater
    } else if a[0] < b[0] {
        Order::Less
    } else if a[0] > b[0] {
        Order::Greater
    } else {
        chars_order(a.drop_first(), b.drop_first())
    }
}

/// Order of prereleases: a version without prerelease comes after every
/// prerelease of it.
pub open spec fn prerelease_order(a: Seq<char>, b: Seq<char>) -> Order {
    if a.len() == 0 {
        if b.len() == 0 {
            Order::Equal
        } else {
            Order::Greater
        }
    } else if b.len() == 0 {
        Order::Less
    } else {
        chars_order(a, b)
    }
}

/// Order of two numbers.
pub open spec fn u32_order(a: u32, b: u32) -> Order {
    if a < b {
        Order::Less
    } else if a == b {
        Order::Equal
    } else {
        Order::Greater
    }
}

/// Order of versions: by major, minor and patch, then by prerelease.
/// The buildmeta plays no part.
pub open spec fn version_order(a: VersionView, b: VersionView) -> Order {
    if a.major != b.major {
        u32_order(a.major, b.major)
    } else if a.minor != b.minor {
        u32_order(a.minor, b.minor)
    } else if a.patch != b.patch {
        u32_order(a.patch, b.patch)
    } else {
        prerelease_order(a.prerelease, b.prerelease)
    }
}

/// The opposite of an order.
pub open spec fn reverse_order(o: Order) -> Order {
    match o {
        Order::Less => Order::Greater,
        Order::Equal => Order::Equal,
        Order::Greater => Order::Less,
    }
}

/// Two versions are equal when their major, minor and patch are.
pub open spec fn version_eq(a: VersionView, b: VersionView) -> bool {
    a.major == b.major && a.minor == b.minor && a.patch == b.patch
}

/// The `Ordering` of an `Order`.
pub fn ordering_of(o: Order) -> (r: Ordering)
    ensures
        r == to_ordering(o),
{
    match o {
        Order::Less => Ordering::Less,
        Order::Equal => Ordering::Equal,
        Order::Greater => Ordering::Greater,
    }
}

/// The message of a number that does not parse: an empty run of digits,
/// or one too large for a `u32`.
fn parse_error_text(empty: bool) -> (r: String)
    ensures
        r@ == if empty {
            "cannot parse integer from empty string"@
        } else {
            "number too large to fit in target type"@
        },
{
    if empty {
        String::from_str("cannot parse integer from empty string")
    } else {
        String::from_str("number too large to fit in target type")
    }
}

impl Version {
    /// Creates a new Semver version.
    pub fn new(major: u32, minor: u32, patch: u32, pre: &str, build: &str) -> (r: Result<Version>)
        ensures
            match r {
                Ok(v) => v@ == (VersionView {
                    major,
                    minor,
                    patch,
                    prerelease: pre@,
                    buildmeta: build@,
                }) && version_valid(v@),
                Err(e) => e is InvalidVersion && !(all_alpha_dash(pre@) && all_alnum_dash(build@)),
            },
    {
        Self::validate_prerelease(pre)?;
        Self::validate_buildmeta(build)?;
        let prerelease = String::from_str(pre);
        let buildmeta = String::from_str(build);
        Ok(Version { major, minor, patch, prerelease, buildmeta })
    }

    /// Validate a Semver numeric version (major, minor or patch).
    pub fn validate_numeric(num: &str) -> (r: Result<()>)
        ensures
            r is Ok <==> all_digits(num@),
            r matches Err(e) ==> e is InvalidVersion,
    {
        let cs = str_to_chars(num);
        assert(cs@.subrange(0, cs.len() as int) =~= cs@);
        if digits_in(&cs, 0, cs.len()) {
            Ok(())
        } else {
            Err(Error::InvalidVersion)
        }
    }

    /// Validate a Semver prerelease version.
    pub fn validate_prerelease(pre: &str) -> (r: Result<()>)
        ensures
            r is Ok <==> all_alpha_dash(pre@),
            r matches Err(e) ==> e is InvalidVersion,
    {
        let cs = str_to_chars(pre);
        assert(cs@.subrange(0, cs.len() as int) =~= cs@);
        if alpha_dash_in(&cs, 0, cs.len()) {
            Ok(())
        } else {
            Err(Error::InvalidVersion)
        }
    }

    /// Validate a buildmeta prerelease version.
    pub fn validate_buildmeta(build: &str) -> (r: Result<()>)
        ensures
            r is Ok <==> all_alnum_dash(build@),
            r matches Err(e) ==> e is InvalidVersion,
    {
        let cs = str_to_chars(build);
        assert(cs@.subrange(0, cs.len() as int) =~= cs@);
        if alnum_dash_in(&cs, 0, cs.len()) {
            Ok(())
        } else {
            Err(Error::InvalidVersion)
        }
    }

    /// Validate a semver version.
    pub fn validate_semver(sv: &str) -> (r: Result<()>)
        ensures
            r is Ok <==> semver_match(sv@),
            r matches Err(e) ==> e is InvalidVersion,
    {
        let cs = str_to_chars(sv);
        match semver_split(&cs) {
            Some(_) => Ok(()),
            None => Err(Error::InvalidVersion),
        }
    }

    /// Parse a string as a `Version`.
    pub fn parse(s: &str) -> (r: Result<Version>)
        ensures
            match r {
                Ok(v) => parse_version(s@) == Some(v@),
                Err(e) => parse_version(s@) is None && (if semver_match(s@) {
                    e is Parse
                } else {
                    e is NoRegexMatch
                }),
            },
    {
        let cs = str_to_chars(s);
        match semver_split(&cs) {
            None => Err(Error::NoRegexMatch),
            Some((i, j, t)) => {
                proof {
                    lemma_best_split_unique(cs@, i as int, j as int);
                    assert(valid_split(cs@, i as int, j as int));
                    lemma_digit_run_end(cs@, i + j + 2);
                }
                let major = match parse_u32_digits(&cs, 0, i) {
                    Some(v) => v,
                    None => return Err(Error::Parse { msg: parse_error_text(i == 0) }),
                };
                let minor = match parse_u32_digits(&cs, i + 1, i + 1 + j) {
                    Some(v) => v,
                    None => return Err(Error::Parse { msg: parse_error_text(j == 0) }),
                };
                let patch = match parse_u32_digits(&cs, i + j + 2, t) {
                    Some(v) => v,
                    None => return Err(Error::Parse { msg: parse_error_text(t == i + j + 2) }),
                };
                let (pre_lo, pre_hi, build_lo, build_hi) = tail_ranges(&cs, t);
                let prerelease = chars_range_to_string(&cs, pre_lo, pre_hi);
                let buildmeta = chars_range_to_string(&cs, build_lo, build_hi);
                Ok(Version { major, minor, patch, prerelease, buildmeta })
            },
        }
    }

    /// Stringify the `Version`.
    pub fn to_string(&self) -> (r: String)
        ensures
            r@ == version_text(self@),
    {
        let mut res = u32_to_dec(self.major);
        res.push('.');
        let minor = u32_to_dec(self.minor);
        append_chars(&mut res, &minor);
        res.push('.');
        let patch = u32_to_dec(self.patch);
        append_chars(&mut res, &patch);
        let pre = str_to_chars(self.prerelease.as_str());
        let build = str_to_chars(self.buildmeta.as_str());
        let ghost head = res@;
        if pre.len() > 0 {
            res.push('-');
            append_chars(&mut res, &pre);
        }
        let ghost mid = res@;
        if build.len() > 0 {
            res.push('+');
            append_chars(&mut res, &build);
        }
        assert(res@ =~= version_text(self@));
        chars_to_string(&res)
    }

    fn compare_numeric(n: u32, other: u32) -> (r: Order)
        ensures
            r == u32_order(n, other),
    {
        if n < other {
            Order::Less
        } else if n == other {
            Order::Equal
        } else {
            Order::Greater
        }
    }

    fn compare_chars(a: &Vec<char>, b: &Vec<char>) -> (r: Order)
        ensures
            r == chars_order(a@, b@),
    {
        let mut i: usize = 0;
        assert(a@.skip(0) =~= a@);
        assert(b@.skip(0) =~= b@);
        while i < a.len() && i < b.len() && a[i] == b[i]
            invariant
                i <= a.len(),
                i <= b.len(),
                chars_order(a@, b@) == chars_order(a@.skip(i as int), b@.skip(i as int)),
            decreases a.len() - i,
        {
            assert(a@.skip(i as int).drop_first() =~= a@.skip(i + 1));
            assert(b@.skip(i as int).drop_first() =~= b@.skip(i + 1));
            i += 1;
        }
        if i == a.len() {
            if i == b.len() {
                Order::Equal
            } else {
                Order::Less
            }
        } else if i == b.len() {
            Order::Greater
        } else if a[i] < b[i] {
            Order::Less
        } else {
            Order::Greater
        }
    }

    fn compare_prerelease(a: &str, b: &str) -> (r: Order)
        ensures
            r == prerelease_order(a@, b@),
    {
        let ca = str_to_chars(a);
        let cb = str_to_chars(b);
        if ca.len() == 0 {
            if cb.len() == 0 {
                return Order::Equal;
            }
            return Order::Greater;
        }
        if cb.len() == 0 {
            return Order::Less;
        }
        Self::compare_chars(&ca, &cb)
    }

    /// `compare` orders two versions: by major, minor and patch, then a
    /// version without a prerelease after one with it, then by
    /// prerelease; the buildmeta does not count.
    pub fn compare(&self, other: &Version) -> (r: Order)
        ensures
            r == version_order(self@, other@),
    {
        let mut res = Self::compare_numeric(self.major, other.major);
        if res != Order::Equal {
            return res;
        }
        res = Self::compare_numeric(self.minor, other.minor);
        if res != Order::Equal {
            return res;
        }
        res = Self::compare_numeric(self.patch, other.patch);
        if res != Order::Equal {
            return res;
        }
        Self::compare_prerelease(self.prerelease.as_str(), other.prerelease.as_str())
    }

    /// Returns if this `Version` is compatible to an other.
    pub fn is_compatible(&self, other: &Version) -> (r: Result<bool>)
        ensures
            match r {
                Ok(b) => version_valid(self@) && version_valid(other@) && b == (self.major
                    == other.major),
                Err(e) => e is InvalidVersion && !(version_valid(self@) && version_valid(other@)),
            },
    {
        self.validate()?;
        other.validate()?;
        let compatible = self.major == other.major;
        Ok(compatible)
    }

    /// Validates the `Version`.
    pub fn validate(&self) -> (r: Result<()>)
        ensures
            r is Ok <==> version_valid(self@),
            r matches Err(e) ==> e is InvalidVersion,
    {
        Self::validate_prerelease(self.prerelease.as_str())?;
        Self::validate_buildmeta(self.buildmeta.as_str())?;
        Ok(())
    }
}

impl Default for Version {
    fn default() -> (r: Version)
        ensures
            r@ == (VersionView {
                major: 0,
                minor: 1,
                patch: 0,
                prerelease: Seq::empty(),
                buildmeta: Seq::empty(),
            }),
    {
        proof {
            reveal_strlit("");
        }
        let prerelease = String::from_str("");
        let buildmeta = String::from_str("");
        assert(prerelease@ =~= Seq::<char>::empty());
        assert(buildmeta@ =~= Seq::<char>::empty());
        Version { major: 0, minor: 1, patch: 0, prerelease, buildmeta }
    }
}

impl PartialEq for Version {
    fn eq(&self, other: &Version) -> (r: bool) {
        self.major == other.major && self.minor == other.minor && self.patch == other.patch
    }
}

impl vstd::std_specs::cmp::PartialEqSpecImpl for Version {
    open spec fn obeys_eq_spec() -> bool {
        true
    }

    open spec fn eq_spec(&self, other: &Version) -> bool {
        version_eq(self@, other@)
    }
}

impl Eq for Version {

}

impl PartialOrd for Version {
    fn partial_cmp(&self, other: &Version) -> (r: Option<Ordering>) {
        Some(ordering_of(self.compare(other)))
    }
}

impl vstd::std_specs::cmp::PartialOrdSpecImpl for Version {
    open spec fn obeys_partial_cmp_spec() -> bool {
        true
    }

    open spec fn partial_cmp_spec(&self, other: &Version) -> Option<Ordering> {
        Some(to_ordering(version_order(self@, other@)))
    }
}

/// Parsing the string of a valid version gives the version back.
pub proof fn lemma_version_text_roundtrip(v: VersionView)
    requires
        version_valid(v),
    ensures
        parse_version(version_text(v)) == Some(v),
{
    lemma_semver_text_parts(v.major as nat, v.minor as nat, v.patch as nat, v.prerelease, v.buildmeta);
    lemma_dec_digits(v.major as nat);
    lemma_dec_digits(v.minor as nat);
    lemma_dec_digits(v.patch as nat);
}

/// Comparing character strings is antisymmetric.
proof fn lemma_chars_order_reverse(a: Seq<char>, b: Seq<char>)
    ensures
        chars_order(a, b) == reverse_order(chars_order(b, a)),
    decreases a.len(),
{
    if a.len() > 0 && b.len() > 0 && a[0] == b[0] {
        lemma_chars_order_reverse(a.drop_first(), b.drop_first());
    }
}

/// Character strings compare equal exactly when they are the same.
proof fn lemma_chars_order_equal(a: Seq<char>, b: Seq<char>)
    ensures
        chars_order(a, b) == Order::Equal <==> a == b,
    decreases a.len(),
{
    if a.len() == 0 && b.len() == 0 {
        assert(a =~= b);
    }
    if a.len() > 0 && b.len() > 0 && a[0] == b[0] {
        lemma_chars_order_equal(a.drop_first(), b.drop_first());
        if a.drop_first() == b.drop_first() {
            assert(a =~= seq![a[0]] + a.drop_first());
            assert(b =~= seq![b[0]] + b.drop_first());
        }
        if a == b {
            assert(a.drop_first() =~= b.drop_first());
        }
    }
}

/// Comparing character strings is transitive.
proof fn lemma_chars_order_transitive(a: Seq<char>, b: Seq<char>, c: Seq<char>)
    requires
        chars_order(a, b) == Order::Less,
        chars_order(b, c) == Order::Less,
    ensures
        chars_order(a, c) == Order::Less,
    decreases a.len(),
{
    if a.len() > 0 && b.len() > 0 && c.len() > 0 && a[0] == b[0] && b[0] == c[0] {
        lemma_chars_order_transitive(a.drop_first(), b.drop_first(), c.drop_first());
    }
}

/// Comparing versions is antisymmetric: `a` comes before `b` exactly when
/// `b` comes after `a`.
pub proof fn lemma_version_order_reverse(a: VersionView, b: VersionView)
    ensures
        version_order(a, b) == reverse_order(version_order(b, a)),
{
    lemma_chars_order_reverse(a.prerelease, b.prerelease);
}

/// Versions grow with their numbers: the first of major, minor and patch
/// in which two versions differ orders them as the integers order it,
/// whatever their prereleases.
pub proof fn lemma_version_order_numbers(a: VersionView, b: VersionView)
    ensures
        a.major < b.major ==> version_order(a, b) == Order::Less,
        a.major > b.major ==> version_order(a, b) == Order::Greater,
        a.major == b.major && a.minor < b.minor ==> version_order(a, b) == Order::Less,
        a.major == b.major && a.minor > b.minor ==> version_order(a, b) == Order::Greater,
        a.major == b.major && a.minor == b.minor && a.patch < b.patch ==> version_order(a, b) == Order::Less,
        a.major == b.major && a.minor == b.minor && a.patch > b.patch ==> version_order(a, b) == Order::Greater,
{
}

/// A version compares equal to another exactly when their major, minor,
/// patch and prerelease are the same; in particular every version compares
/// equal to itself, and versions that compare equal are equal by `==`.
pub proof fn lemma_version_order_equal(a: VersionView, b: VersionView)
    ensures
        version_order(a, b) == Order::Equal <==> (a.major == b.major && a.minor == b.minor
            && a.patch == b.patch && a.prerelease == b.prerelease),
        version_order(a, a) == Order::Equal,
        version_order(a, b) == Order::Equal ==> version_eq(a, b),
{
    lemma_chars_order_equal(a.prerelease, b.prerelease);
    lemma_chars_order_equal(a.prerelease, a.prerelease);
}

/// Comparing versions is transitive.
pub proof fn lemma_version_order_transitive(a: VersionView, b: VersionView, c: VersionView)
    requires
        version_order(a, b) == Order::Less,
        version_order(b, c) == Order::Less,
    ensures
        version_order(a, c) == Order::Less,
{
    if a.major == b.major && b.major == c.major && a.minor == b.minor && b.minor == c.minor
        && a.patch == b.patch && b.patch == c.patch {
        if a.prerelease.len() > 0 && b.prerelease.len() > 0 && c.prerelease.len() > 0 {
            lemma_chars_order_transitive(a.prerelease, b.prerelease, c.prerelease);
        }
    }
}

} // verus!
