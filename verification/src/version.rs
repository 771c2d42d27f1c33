use vstd::prelude::*;

use crate::error::MdBookRFCError;

verus! {

// The compatibility checker. The plugin's own build-time version is turned
// into a caret requirement and the caller's declared version is held against
// it; a mismatch is a warning, never an error. Version strings are parsed by
// the semver crate; the comparison policy itself is implemented and verified
// here.

/// What the semver grammar makes of a string: `None` for a malformed
/// version, otherwise the numeric triple, the raw pre-release text and the
/// raw build metadata text.
pub uninterp spec fn semver_parse(s: Seq<char>) -> Option<(u64, u64, u64, Seq<u8>, Seq<u8>)>;

/// Relies on semver::Version::parse: whether a string is a well-formed
/// semantic version, and its parts, depend on the characters alone.
#[verifier::external_body]
fn parse_semver_raw(s: &str) -> (r: Option<(u64, u64, u64, Vec<u8>, Vec<u8>)>)
    ensures
        match r {
            Some(t) => semver_parse(s@) == Some((t.0, t.1, t.2, t.3@, t.4@)),
            None => semver_parse(s@) is None,
        },
{
    match semver::Version::parse(s) {
        Ok(v) => Some(
            (
                v.major,
                v.minor,
                v.patch,
                v.pre.as_str().as_bytes().to_vec(),
                v.build.as_str().as_bytes().to_vec(),
            ),
        ),
        Err(_) => None,
    }
}

/// A parsed semantic version: the numeric triple, the pre-release
/// identifiers (empty when there is no pre-release) and the build metadata.
pub struct Version {
    pub major: u64,
    pub minor: u64,
    pub patch: u64,
    pub pre: Vec<Vec<u8>>,
    pub build: Vec<u8>,
}

/// Model of a version.
#[verifier::ext_equal]
pub struct VersionV {
    pub major: u64,
    pub minor: u64,
    pub patch: u64,
    pub pre: Seq<Seq<u8>>,
    pub build: Seq<u8>,
}

pub open spec fn ids_view(s: Seq<Vec<u8>>) -> Seq<Seq<u8>> {
    Seq::new(s.len(), |i: int| s[i]@)
}

impl vstd::view::DeepView for Version {
    type V = VersionV;

    open spec fn deep_view(&self) -> VersionV {
        VersionV {
            major: self.major,
            minor: self.minor,
            patch: self.patch,
            pre: ids_view(self.pre@),
            build: self.build@,
        }
    }
}

/// Splitting a byte string at the dots, from position `i` on.
pub open spec fn split_from(s: Seq<u8>, i: int) -> Seq<Seq<u8>>
    decreases s.len() - i,
{
    if i < 0 || i >= s.len() {
        seq![Seq::<u8>::empty()]
    } else if s[i] == 46 {
        seq![Seq::<u8>::empty()] + split_from(s, i + 1)
    } else {
        let rest = split_from(s, i + 1);
        seq![seq![s[i]] + rest[0]] + rest.drop_first()
    }
}

/// The pre-release identifier list of a raw pre-release string: empty when
/// the string is empty, otherwise the dot-separated identifiers.
pub open spec fn pre_ids(s: Seq<u8>) -> Seq<Seq<u8>> {
    if s.len() == 0 {
        Seq::empty()
    } else {
        split_from(s, 0)
    }
}

/// The version a raw parse result stands for.
pub open spec fn semver_view(t: (u64, u64, u64, Seq<u8>, Seq<u8>)) -> VersionV {
    VersionV { major: t.0, minor: t.1, patch: t.2, pre: pre_ids(t.3), build: t.4 }
}

/// An identifier made of decimal digits alone is compared numerically.
pub open spec fn is_num_id(id: Seq<u8>) -> bool {
    id.len() > 0 && forall|i: int| 0 <= i < id.len() ==> 48 <= #[trigger] id[i] <= 57
}

/// Byte-wise lexicographic order, from position `i` on.
pub open spec fn lex_lt_from(a: Seq<u8>, b: Seq<u8>, i: int) -> bool
    decreases a.len() + b.len() - i,
{
    if i < 0 || i >= b.len() {
        false
    } else if i >= a.len() {
        true
    } else if a[i] != b[i] {
        a[i] < b[i]
    } else {
        lex_lt_from(a, b, i + 1)
    }
}

/// Numeric order of two digit strings without leading zeros: the shorter is
/// smaller; at equal length the lexicographic order decides.
pub open spec fn num_lt(a: Seq<u8>, b: Seq<u8>) -> bool {
    a.len() < b.len() || (a.len() == b.len() && lex_lt_from(a, b, 0))
}

/// Precedence order of two pre-release identifiers: numeric ones compare
/// numerically and rank below alphanumeric ones; alphanumeric ones compare
/// lexicographically.
pub open spec fn id_lt(a: Seq<u8>, b: Seq<u8>) -> bool {
    if is_num_id(a) && is_num_id(b) {
        num_lt(a, b)
    } else if is_num_id(a) {
        true
    } else if is_num_id(b) {
        false
    } else {
        lex_lt_from(a, b, 0)
    }
}

/// Precedence order of two pre-release identifier lists, from position `i`
/// on: identifier by identifier, a missing field ranking below any present
/// one.
pub open spec fn pre_lt_from(a: Seq<Seq<u8>>, b: Seq<Seq<u8>>, i: int) -> bool
    decreases a.len() + b.len() - i,
{
    if i < 0 || i >= b.len() {
        false
    } else if i >= a.len() {
        true
    } else if id_lt(a[i], b[i]) {
        true
    } else if id_lt(b[i], a[i]) {
        false
    } else {
        pre_lt_from(a, b, i + 1)
    }
}

/// Whether version `v` is at least version `req`: the numeric triple
/// decides, and at an equal triple a version without a pre-release ranks
/// above any with one, while two pre-releases compare by precedence.
pub open spec fn base_ge(req: VersionV, v: VersionV) -> bool {
    if v.major != req.major {
        v.major > req.major
    } else if v.minor != req.minor {
        v.minor > req.minor
    } else if v.patch != req.patch {
        v.patch > req.patch
    } else if v.pre.len() == 0 {
        true
    } else if req.pre.len() == 0 {
        false
    } else {
        !pre_lt_from(v.pre, req.pre, 0)
    }
}

/// The upper bound of the caret range of `req`: the leftmost non-zero part
/// of the triple may not grow.
pub open spec fn caret_upper_ok(req: VersionV, v: VersionV) -> bool {
    if req.major > 0 {
        v.major == req.major
    } else if req.minor > 0 {
        v.major == 0 && v.minor == req.minor
    } else {
        v.major == 0 && v.minor == 0 && v.patch == req.patch
    }
}

/// The compatibility policy: whether `v` satisfies the caret requirement of
/// `req`. A version that carries a pre-release satisfies it only at the very
/// triple of the requirement, and only if the requirement itself carries a
/// pre-release of no higher precedence.
pub open spec fn caret_matches(req: VersionV, v: VersionV) -> bool {
    if v.pre.len() > 0 {
        req.pre.len() > 0 && v.major == req.major && v.minor == req.minor && v.patch == req.patch
            && base_ge(req, v)
    } else {
        base_ge(req, v) && caret_upper_ok(req, v)
    }
}

fn split_ids(s: &Vec<u8>, i: usize) -> (r: Vec<Vec<u8>>)
    requires
        i <= s@.len(),
    ensures
        ids_view(r@) == split_from(s@, i as int),
        r@.len() > 0,
    decreases s@.len() - i,
{
    if i == s.len() {
        let mut r: Vec<Vec<u8>> = Vec::new();
        r.push(Vec::new());
        proof {
            assert(ids_view(r@) =~= split_from(s@, i as int));
        }
        r
    } else if s[i] == 46 {
        let rest = split_ids(s, i + 1);
        let mut r: Vec<Vec<u8>> = Vec::new();
        r.push(Vec::new());
        let mut k: usize = 0;
        while k < rest.len()
            invariant
                k <= rest@.len(),
                r@.len() == k + 1,
                r@[0]@ == Seq::<u8>::empty(),
                forall|m: int| 1 <= m <= k ==> #[trigger] r@[m]@ == rest@[m - 1]@,
            decreases rest@.len() - k,
        {
            let id = rest[k].clone();
            r.push(id);
            k = k + 1;
        }
        proof {
            assert forall|m: int| 0 <= m < r@.len() implies #[trigger] ids_view(r@)[m]
                == split_from(s@, i as int)[m] by {
                if m > 0 {
                    assert(r@[m]@ == rest@[m - 1]@);
                    assert(ids_view(rest@)[m - 1] == rest@[m - 1]@);
                }
            }
            assert(ids_view(r@) =~= split_from(s@, i as int));
        }
        r
    } else {
        let mut rest = split_ids(s, i + 1);
        let ghost old_ids = ids_view(rest@);
        let mut head = rest.remove(0);
        head.insert(0, s[i]);
        rest.insert(0, head);
        proof {
            assert(rest@[0]@ =~= seq![s@[i as int]] + old_ids[0]);
            assert forall|m: int| 0 <= m < rest@.len() implies #[trigger] ids_view(rest@)[m]
                == split_from(s@, i as int)[m] by {
                if m > 0 {
                    assert(rest@[m]@ == old_ids[m]);
                }
            }
            assert(ids_view(rest@) =~= split_from(s@, i as int));
        }
        rest
    }
}

/// Parse a semantic version string; a malformed one is a
/// `VersionParseError`.
pub fn parse_version(s: &str) -> (r: Result<Version, MdBookRFCError>)
    ensures
        match r {
            Ok(v) => semver_parse(s@) is Some && v.deep_view() == semver_view(
                semver_parse(s@).unwrap(),
            ),
            Err(e) => semver_parse(s@) is None && e == MdBookRFCError::VersionParse,
        },
{
    match parse_semver_raw(s) {
        Some(t) => {
            let (major, minor, patch, pre_raw, build) = t;
            let pre: Vec<Vec<u8>> = if pre_raw.len() == 0 {
                Vec::new()
            } else {
                split_ids(&pre_raw, 0)
            };
            let v = Version { major, minor, patch, pre, build };
            proof {
                assert(ids_view(Seq::<Vec<u8>>::empty()) =~= Seq::<Seq<u8>>::empty());
                assert(v.deep_view() =~= semver_view(semver_parse(s@).unwrap()));
            }
            Ok(v)
        },
        None => Err(MdBookRFCError::VersionParse),
    }
}

fn lex_lt_exec(a: &Vec<u8>, b: &Vec<u8>, i: usize) -> (r: bool)
    ensures
        r == lex_lt_from(a@, b@, i as int),
    decreases a@.len() + b@.len() - i,
{
    if i >= b.len() {
        false
    } else if i >= a.len() {
        true
    } else if a[i] != b[i] {
        a[i] < b[i]
    } else {
        lex_lt_exec(a, b, i + 1)
    }
}

#[verifier::loop_isolation(false)]
fn is_num_id_exec(id: &Vec<u8>) -> (r: bool)
    ensures
        r == is_num_id(id@),
{
    if id.len() == 0 {
        return false;
    }
    let mut i: usize = 0;
    while i < id.len()
        invariant
            i <= id@.len(),
            forall|k: int| 0 <= k < i ==> 48 <= #[trigger] id@[k] <= 57,
        decreases id@.len() - i,
    {
        if id[i] < 48 || id[i] > 57 {
            return false;
        }
        i = i + 1;
    }
    true
}

fn id_lt_exec(a: &Vec<u8>, b: &Vec<u8>) -> (r: bool)
    ensures
        r == id_lt(a@, b@),
{
    let a_num = is_num_id_exec(a);
    let b_num = is_num_id_exec(b);
    if a_num && b_num {
        a.len() < b.len() || (a.len() == b.len() && lex_lt_exec(a, b, 0))
    } else if a_num {
        true
    } else if b_num {
        false
    } else {
        lex_lt_exec(a, b, 0)
    }
}

fn pre_lt_exec(a: &Vec<Vec<u8>>, b: &Vec<Vec<u8>>, i: usize) -> (r: bool)
    ensures
        r == pre_lt_from(ids_view(a@), ids_view(b@), i as int),
    decreases a@.len() + b@.len() - i,
{
    if i >= b.len() {
        false
    } else if i >= a.len() {
        true
    } else if id_lt_exec(&a[i], &b[i]) {
        true
    } else if id_lt_exec(&b[i], &a[i]) {
        false
    } else {
        pre_lt_exec(a, b, i + 1)
    }
}

/// Whether version `v` satisfies the caret requirement of `req`.
pub fn version_matches(req: &Version, v: &Version) -> (r: bool)
    ensures
        r == caret_matches(req.deep_view(), v.deep_view()),
{
    if v.pre.len() > 0 {
        req.pre.len() > 0 && v.major == req.major && v.minor == req.minor && v.patch == req.patch
            && !pre_lt_exec(&v.pre, &req.pre, 0)
    } else {
        let ge = if v.major != req.major {
            v.major > req.major
        } else if v.minor != req.minor {
            v.minor > req.minor
        } else if v.patch != req.patch {
            v.patch > req.patch
        } else {
            true
        };
        let upper = if req.major > 0 {
            v.major == req.major
        } else if req.minor > 0 {
            v.major == 0 && v.minor == req.minor
        } else {
            v.major == 0 && v.minor == 0 && v.patch == req.patch
        };
        ge && upper
    }
}

/// The compatibility check of the handshake: parse the version the plugin
/// was built against and the version the caller declared, and decide whether
/// the caller satisfies the plugin's caret requirement. `Ok(false)` is the
/// warning case: processing continues.
pub fn check_compatibility(built_against: &str, declared: &str) -> (r: Result<
    bool,
    MdBookRFCError,
>)
    ensures
        match r {
            Ok(compatible) => semver_parse(built_against@) is Some && semver_parse(declared@)
                is Some && compatible == caret_matches(
                semver_view(semver_parse(built_against@).unwrap()),
                semver_view(semver_parse(declared@).unwrap()),
            ),
            Err(e) => (semver_parse(built_against@) is None || semver_parse(declared@) is None)
                && e == MdBookRFCError::VersionParse,
        },
{
    let req = parse_version(built_against)?;
    let v = parse_version(declared)?;
    Ok(version_matches(&req, &v))
}

} // verus!
