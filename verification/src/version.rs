//! The version model: a structured version identifier with a pre-release
//! staging rule, parsed from and rendered to a canonical string form and
//! totally ordered by `(major, minor, patch, stage, build)`.

use vstd::prelude::*;
use vstd::string::StringExecFns;

verus! {

/// Pre-release / release classification of a version.
///
/// Stages order as `Alpha < Beta < Release`.
#[derive(Debug, Clone, Copy, PartialEq, Eq, Hash, PartialOrd, Ord, Structural)]
pub enum VersionStage {
    Alpha,
    Beta,
    Release,
}

impl Default for VersionStage {
    fn default() -> (r: Self)
        ensures
            r == VersionStage::Release,
    {
        VersionStage::Release
    }
}

/// Rank of a stage in the total order: `Alpha < Beta < Release`.
pub open spec fn stage_rank(s: VersionStage) -> int {
    match s {
        VersionStage::Alpha => 0,
        VersionStage::Beta => 1,
        VersionStage::Release => 2,
    }
}

impl VersionStage {
    /// Executable counterpart of [`stage_rank`].
    pub fn rank(&self) -> (r: u32)
        ensures
            r == stage_rank(*self),
    {
        match self {
            VersionStage::Alpha => 0,
            VersionStage::Beta => 1,
            VersionStage::Release => 2,
        }
    }
}

/// A structured version identifier.
///
/// Two versions are equal exactly when all five fields are equal; the total
/// order is lexicographic over `(major, minor, patch, stage, build)`.
#[derive(Debug, Clone, Copy, PartialEq, Eq, Hash, PartialOrd, Ord, Structural)]
pub struct Version {
    pub major: u32,
    pub minor: u32,
    pub patch: u32,
    pub stage: VersionStage,
    pub build: u32,
}

impl Default for Version {
    fn default() -> (r: Self)
        ensures
            r == (Version {
                major: 0,
                minor: 2,
                patch: 2,
                stage: VersionStage::Release,
                build: 0,
            }),
    {
        Version { major: 0, minor: 2, patch: 2, stage: VersionStage::Release, build: 0 }
    }
}

/// The strict total order on versions: lexicographic over
/// `(major, minor, patch, stage rank, build)`.
pub open spec fn version_lt(a: Version, b: Version) -> bool {
    ||| a.major < b.major
    ||| (a.major == b.major && a.minor < b.minor)
    ||| (a.major == b.major && a.minor == b.minor && a.patch < b.patch)
    ||| (a.major == b.major && a.minor == b.minor && a.patch == b.patch && stage_rank(a.stage)
        < stage_rank(b.stage))
    ||| (a.major == b.major && a.minor == b.minor && a.patch == b.patch && a.stage == b.stage
        && a.build < b.build)
}

/// The comparison that [`Version::compare`] returns, stated over [`version_lt`].
pub open spec fn version_cmp(a: Version, b: Version) -> core::cmp::Ordering {
    if version_lt(a, b) {
        core::cmp::Ordering::Less
    } else if a == b {
        core::cmp::Ordering::Equal
    } else {
        core::cmp::Ordering::Greater
    }
}

impl Version {
    /// Strict "comes before" test in the total order.
    pub fn precedes(&self, other: &Version) -> (r: bool)
        ensures
            r == version_lt(*self, *other),
    {
        if self.major != other.major {
            self.major < other.major
        } else if self.minor != other.minor {
            self.minor < other.minor
        } else if self.patch != other.patch {
            self.patch < other.patch
        } else if self.stage.rank() != other.stage.rank() {
            self.stage.rank() < other.stage.rank()
        } else {
            proof {
                lemma_stage_rank_injective(self.stage, other.stage);
            }
            self.build < other.build
        }
    }

    /// Three-way comparison implementing the total order.
    pub fn compare(&self, other: &Version) -> (r: core::cmp::Ordering)
        ensures
            r == version_cmp(*self, *other),
    {
        if self.precedes(other) {
            core::cmp::Ordering::Less
        } else if other.precedes(self) {
            proof {
                lemma_version_order_strict(*self, *other);
            }
            core::cmp::Ordering::Greater
        } else {
            proof {
                lemma_version_order_connected(*self, *other);
            }
            core::cmp::Ordering::Equal
        }
    }
}

/// Equal stage ranks come from equal stages.
proof fn lemma_stage_rank_injective(a: VersionStage, b: VersionStage)
    requires
        stage_rank(a) == stage_rank(b),
    ensures
        a == b,
{
}

/// The order is irreflexive and asymmetric: a version never precedes itself,
/// and two versions never precede each other.
pub proof fn lemma_version_order_strict(a: Version, b: Version)
    ensures
        !(version_lt(a, b) && version_lt(b, a)),
        !version_lt(a, a),
{
}

/// The order is connected: distinct versions compare strictly, one way only.
pub proof fn lemma_version_order_connected(a: Version, b: Version)
    ensures
        a == b || version_lt(a, b) || version_lt(b, a),
{
}

/// The order is transitive.
pub proof fn lemma_version_order_transitive(a: Version, b: Version, c: Version)
    requires
        version_lt(a, b),
        version_lt(b, c),
    ensures
        version_lt(a, c),
{
}

/// Staging rule: with the same `(major, minor, patch)` triple, a lower stage
/// sorts strictly below a higher one, whatever the build numbers. In
/// particular every pre-release sorts below the plain release of its triple.
pub proof fn lemma_stage_order(a: Version, b: Version)
    requires
        a.major == b.major,
        a.minor == b.minor,
        a.patch == b.patch,
        stage_rank(a.stage) < stage_rank(b.stage),
    ensures
        version_lt(a, b),
{
}

/// Tie-break rule: with the same triple and stage, the build number decides.
pub proof fn lemma_build_tiebreak(a: Version, b: Version)
    requires
        a.major == b.major,
        a.minor == b.minor,
        a.patch == b.patch,
        a.stage == b.stage,
        a.build < b.build,
    ensures
        version_lt(a, b),
{
}

/// The whitespace trimmed from the ends of an input string: the Unicode
/// `White_Space` code points, the set `str::trim` removes.
pub open spec fn is_space(c: char) -> bool {
    let u = c as u32;
    ||| 0x09 <= u <= 0x0D
    ||| u == 0x20
    ||| u == 0x85
    ||| u == 0xA0
    ||| u == 0x1680
    ||| 0x2000 <= u <= 0x200A
    ||| u == 0x2028
    ||| u == 0x2029
    ||| u == 0x202F
    ||| u == 0x205F
    ||| u == 0x3000
}

/// An ASCII decimal digit.
pub open spec fn is_digit(c: char) -> bool {
    48 <= c as u32 <= 57
}

/// Numeric value of a digit character.
pub open spec fn digit_val(c: char) -> int {
    c as u32 - 48
}

/// The digit character for a value in `0..=9`.
pub open spec fn digit_char(d: int) -> char {
    if d == 0 {
        '0'
    } else if d == 1 {
        '1'
    } else if d == 2 {
        '2'
    } else if d == 3 {
        '3'
    } else if d == 4 {
        '4'
    } else if d == 5 {
        '5'
    } else if d == 6 {
        '6'
    } else if d == 7 {
        '7'
    } else if d == 8 {
        '8'
    } else {
        '9'
    }
}

/// Leading whitespace removed.
pub open spec fn trim_front(s: Seq<char>) -> Seq<char>
    decreases s.len(),
{
    if s.len() > 0 && is_space(s[0]) {
        trim_front(s.drop_first())
    } else {
        s
    }
}

/// Trailing whitespace removed.
pub open spec fn trim_back(s: Seq<char>) -> Seq<char>
    decreases s.len(),
{
    if s.len() > 0 && is_space(s[s.len() - 1]) {
        trim_back(s.drop_last())
    } else {
        s
    }
}

/// Leading `v` markers removed.
pub open spec fn strip_markers(s: Seq<char>) -> Seq<char>
    decreases s.len(),
{
    if s.len() > 0 && s[0] == 'v' {
        strip_markers(s.drop_first())
    } else {
        s
    }
}

/// The input as the parser sees it: whitespace trimmed from both ends, then
/// any leading `v` markers removed.
pub open spec fn cleaned(s: Seq<char>) -> Seq<char> {
    strip_markers(trim_back(trim_front(s)))
}

/// Index of the first occurrence of `c` in `s`, if any.
pub open spec fn find_char(s: Seq<char>, c: char) -> Option<int>
    decreases s.len(),
{
    if s.len() == 0 {
        None
    } else if s[0] == c {
        Some(0)
    } else {
        match find_char(s.drop_first(), c) {
            None => None,
            Some(i) => Some(i + 1),
        }
    }
}

/// Whether `c` occurs in `s`.
pub open spec fn has_char(s: Seq<char>, c: char) -> bool {
    exists|i: int| 0 <= i < s.len() && s[i] == c
}

/// `find_char` finds an index of `c`, the first one.
pub proof fn lemma_find_char_some(s: Seq<char>, c: char)
    requires
        find_char(s, c) is Some,
    ensures
        0 <= find_char(s, c)->Some_0 < s.len(),
        s[find_char(s, c)->Some_0] == c,
        forall|k: int| 0 <= k < find_char(s, c)->Some_0 ==> s[k] != c,
    decreases s.len(),
{
    if s.len() > 0 && s[0] != c {
        if find_char(s.drop_first(), c) is Some {
            lemma_find_char_some(s.drop_first(), c);
            let i = find_char(s, c)->Some_0;
            assert forall|k: int| 0 <= k < i implies s[k] != c by {
                if k > 0 {
                    assert(s.drop_first()[k - 1] != c);
                }
            }
        }
    }
}

/// `find_char` returns `None` exactly when `c` does not occur.
pub proof fn lemma_find_char_none(s: Seq<char>, c: char)
    ensures
        find_char(s, c) is None <==> !has_char(s, c),
    decreases s.len(),
{
    if s.len() > 0 {
        lemma_find_char_none(s.drop_first(), c);
        if s[0] != c && has_char(s, c) {
            let i = choose|i: int| 0 <= i < s.len() && s[i] == c;
            assert(s.drop_first()[i - 1] == c);
        }
    }
}

/// The first occurrence determines `find_char`.
pub proof fn lemma_find_char_at(s: Seq<char>, c: char, i: int)
    requires
        0 <= i < s.len(),
        s[i] == c,
        forall|k: int| 0 <= k < i ==> s[k] != c,
    ensures
        find_char(s, c) == Some(i),
    decreases s.len(),
{
    if i > 0 {
        lemma_find_char_at(s.drop_first(), c, i - 1);
    }
}

/// `s` split on every occurrence of `c`: one more piece than occurrences, the
/// separators themselves dropped. The empty string splits into one empty piece.
pub open spec fn split_at_char(s: Seq<char>, c: char) -> Seq<Seq<char>>
    decreases s.len(),
    via split_at_char_decreases
{
    match find_char(s, c) {
        None => seq![s],
        Some(i) => seq![s.take(i)] + split_at_char(s.skip(i + 1), c),
    }
}

#[via_fn]
proof fn split_at_char_decreases(s: Seq<char>, c: char) {
    if find_char(s, c) is Some {
        lemma_find_char_some(s, c);
    }
}

/// Splitting a string without the separator yields that one piece.
pub proof fn lemma_split_whole(s: Seq<char>, c: char)
    requires
        !has_char(s, c),
    ensures
        split_at_char(s, c) == seq![s],
{
    lemma_find_char_none(s, c);
}

/// Splitting at the first separator: the piece before it, then the split of
/// what follows it.
pub proof fn lemma_split_step(s: Seq<char>, c: char, i: int)
    requires
        0 <= i < s.len(),
        s[i] == c,
        forall|k: int| 0 <= k < i ==> s[k] != c,
    ensures
        split_at_char(s, c) == seq![s.take(i)] + split_at_char(s.skip(i + 1), c),
{
    lemma_find_char_at(s, c, i);
}

/// Value of a digit string, read in base ten from the left.
pub open spec fn dec_val(s: Seq<char>) -> int
    decreases s.len(),
{
    if s.len() == 0 {
        0
    } else {
        dec_val(s.drop_last()) * 10 + digit_val(s.last())
    }
}

/// All characters are decimal digits.
pub open spec fn all_digits(s: Seq<char>) -> bool {
    forall|i: int| 0 <= i < s.len() ==> is_digit(s[i])
}

/// Whether a token is accepted as a 32-bit field value: non-empty, digits
/// only, and within the `u32` range.
pub open spec fn parses_as_u32(s: Seq<char>) -> bool {
    s.len() > 0 && all_digits(s) && dec_val(s) <= u32::MAX
}

/// Canonical decimal numeral of a non-negative number, no leading zeros
/// except for the numeral `0` itself.
pub open spec fn dec_str(n: nat) -> Seq<char>
    decreases n,
{
    if n < 10 {
        seq![digit_char(n as int)]
    } else {
        dec_str(n / 10) + seq![digit_char((n % 10) as int)]
    }
}

/// The stage tag accepted for [`VersionStage::Alpha`].
pub open spec fn alpha_tag() -> Seq<char> {
    seq!['a', 'l', 'p', 'h', 'a']
}

/// The stage tag accepted for [`VersionStage::Beta`].
pub open spec fn beta_tag() -> Seq<char> {
    seq!['b', 'e', 't', 'a']
}

/// The stage tag accepted for [`VersionStage::Release`].
pub open spec fn release_tag() -> Seq<char> {
    seq!['r', 'e', 'l', 'e', 'a', 's', 'e']
}

/// The stage a tag token denotes, if any. Tags are case-sensitive exact
/// matches.
pub open spec fn stage_of_tag(t: Seq<char>) -> Option<VersionStage> {
    if t == alpha_tag() {
        Some(VersionStage::Alpha)
    } else if t == beta_tag() {
        Some(VersionStage::Beta)
    } else if t == release_tag() {
        Some(VersionStage::Release)
    } else {
        None
    }
}

/// Field-identifying reasons a version string is rejected.
#[derive(Debug, Clone, Copy, PartialEq, Eq, Structural)]
pub enum ParseError {
    /// The input is empty once trimmed and stripped of `v` markers.
    EmptyInput,
    /// The part before the first `-` does not split into exactly three
    /// dot-separated tokens.
    NotThreePart,
    /// The major token is not a `u32` numeral.
    BadMajor,
    /// The minor token is not a `u32` numeral.
    BadMinor,
    /// The patch token is not a `u32` numeral.
    BadPatch,
    /// The first token after `-` is not `alpha`, `beta` or `release`.
    BadStage,
    /// The token after the stage tag is not a `u32` numeral.
    BadBuild,
}

/// The message each parse error renders, naming the malformed field.
pub open spec fn parse_error_message_spec(e: ParseError) -> Seq<char> {
    match e {
        ParseError::EmptyInput => "Version string cannot be empty"@,
        ParseError::NotThreePart => "Version must be in the format major.minor.patch"@,
        ParseError::BadMajor => "Invalid major version"@,
        ParseError::BadMinor => "Invalid minor version"@,
        ParseError::BadPatch => "Invalid patch version"@,
        ParseError::BadStage => "Invalid version stage"@,
        ParseError::BadBuild => "Invalid build number"@,
    }
}

impl ParseError {
    /// The human-readable message, exactly [`parse_error_message_spec`].
    pub fn message(&self) -> (r: String)
        ensures
            r@ == parse_error_message_spec(*self),
    {
        match self {
            ParseError::EmptyInput => String::from_str("Version string cannot be empty"),
            ParseError::NotThreePart => String::from_str(
                "Version must be in the format major.minor.patch",
            ),
            ParseError::BadMajor => String::from_str("Invalid major version"),
            ParseError::BadMinor => String::from_str("Invalid minor version"),
            ParseError::BadPatch => String::from_str("Invalid patch version"),
            ParseError::BadStage => String::from_str("Invalid version stage"),
            ParseError::BadBuild => String::from_str("Invalid build number"),
        }
    }
}

/// What parsing a version string yields, stated as a mathematical function of
/// the character sequence. [`Version::parse`] returns exactly this.
pub open spec fn parse_spec(s: Seq<char>) -> Result<Version, ParseError> {
    let t = cleaned(s);
    if t.len() == 0 {
        Err(ParseError::EmptyInput)
    } else {
        let pieces = split_at_char(core_part(t), '.');
        if pieces.len() != 3 {
            Err(ParseError::NotThreePart)
        } else if !parses_as_u32(pieces[0]) {
            Err(ParseError::BadMajor)
        } else if !parses_as_u32(pieces[1]) {
            Err(ParseError::BadMinor)
        } else if !parses_as_u32(pieces[2]) {
            Err(ParseError::BadPatch)
        } else {
            let major = dec_val(pieces[0]) as u32;
            let minor = dec_val(pieces[1]) as u32;
            let patch = dec_val(pieces[2]) as u32;
            match stage_part(t) {
                None => Ok(
                    Version { major, minor, patch, stage: VersionStage::Release, build: 0 },
                ),
                Some(sp) => {
                    let toks = split_at_char(sp, '.');
                    match stage_of_tag(toks[0]) {
                        None => Err(ParseError::BadStage),
                        Some(stage) => {
                            if toks.len() > 1 {
                                if parses_as_u32(toks[1]) {
                                    Ok(
                                        Version {
                                            major,
                                            minor,
                                            patch,
                                            stage,
                                            build: dec_val(toks[1]) as u32,
                                        },
                                    )
                                } else {
                                    Err(ParseError::BadBuild)
                                }
                            } else {
                                Ok(Version { major, minor, patch, stage, build: 0 })
                            }
                        },
                    }
                },
            }
        }
    }
}

/// The part of a cleaned input before the first `-`, holding the dotted
/// `major.minor.patch` triple.
pub open spec fn core_part(t: Seq<char>) -> Seq<char> {
    match find_char(t, '-') {
        None => t,
        Some(i) => t.take(i),
    }
}

/// The part of a cleaned input after the first `-`, holding the stage tag and
/// optional build number, if a `-` is present at all.
pub open spec fn stage_part(t: Seq<char>) -> Option<Seq<char>> {
    match find_char(t, '-') {
        None => None,
        Some(i) => Some(t.skip(i + 1)),
    }
}

/// The canonical string form of a version:
/// `major.minor.patch[-stage][.build]`, with the stage tag omitted for plain
/// releases and the build suffix present only when the build is non-zero (a
/// non-zero build on a release re-inserts the literal `release` tag).
pub open spec fn render_spec(v: Version) -> Seq<char> {
    render_core(v) + render_stage(v) + render_build(v)
}

/// The dotted `major.minor.patch` triple of the canonical form.
pub open spec fn render_core(v: Version) -> Seq<char> {
    dec_str(v.major as nat) + seq!['.'] + dec_str(v.minor as nat) + seq!['.'] + dec_str(
        v.patch as nat,
    )
}

/// The stage tag of the canonical form: `-alpha` or `-beta`, nothing for a
/// release.
pub open spec fn render_stage(v: Version) -> Seq<char> {
    match v.stage {
        VersionStage::Alpha => seq!['-'] + alpha_tag(),
        VersionStage::Beta => seq!['-'] + beta_tag(),
        VersionStage::Release => seq![],
    }
}

/// The build suffix of the canonical form: absent when the build is zero;
/// otherwise `.build`, preceded by `-release` when the stage tag was omitted.
pub open spec fn render_build(v: Version) -> Seq<char> {
    if v.build > 0 {
        (if v.stage is Release {
            seq!['-'] + release_tag()
        } else {
            seq![]
        }) + seq!['.'] + dec_str(v.build as nat)
    } else {
        seq![]
    }
}

/// `trim_front` removes exactly the leading run of whitespace.
proof fn lemma_trim_front_index(s: Seq<char>, k: int)
    requires
        0 <= k <= s.len(),
        forall|i: int| 0 <= i < k ==> is_space(s[i]),
        k == s.len() || !is_space(s[k]),
    ensures
        trim_front(s) == s.skip(k),
    decreases k,
{
    if k == 0 {
        assert(s.skip(0) =~= s);
    } else {
        lemma_trim_front_index(s.drop_first(), k - 1);
        assert(s.drop_first().skip(k - 1) =~= s.skip(k));
    }
}

/// `trim_back` removes exactly the trailing run of whitespace.
proof fn lemma_trim_back_index(s: Seq<char>, k: int)
    requires
        0 <= k <= s.len(),
        forall|i: int| k <= i < s.len() ==> is_space(s[i]),
        k == 0 || !is_space(s[k - 1]),
    ensures
        trim_back(s) == s.take(k),
    decreases s.len(),
{
    if k == s.len() {
        assert(s.take(k) =~= s);
    } else {
        lemma_trim_back_index(s.drop_last(), k);
        assert(s.drop_last().take(k) =~= s.take(k));
    }
}

/// `strip_markers` removes exactly the leading run of `v` characters.
proof fn lemma_strip_markers_index(s: Seq<char>, k: int)
    requires
        0 <= k <= s.len(),
        forall|i: int| 0 <= i < k ==> s[i] == 'v',
        k == s.len() || s[k] != 'v',
    ensures
        strip_markers(s) == s.skip(k),
    decreases k,
{
    if k == 0 {
        assert(s.skip(0) =~= s);
    } else {
        lemma_strip_markers_index(s.drop_first(), k - 1);
        assert(s.drop_first().skip(k - 1) =~= s.skip(k));
    }
}

/// Extending a non-negative prefix with digits never shrinks the value.
proof fn lemma_dec_val_extend(s: Seq<char>, k: int)
    requires
        0 <= k <= s.len(),
        dec_val(s.take(k)) >= 0,
        forall|i: int| k <= i < s.len() ==> is_digit(s[i]),
    ensures
        dec_val(s) >= dec_val(s.take(k)),
    decreases s.len() - k,
{
    if k < s.len() {
        assert(s.drop_last().take(k) =~= s.take(k));
        lemma_dec_val_extend(s.drop_last(), k);
        assert(is_digit(s.last()));
    } else {
        assert(s.take(k) =~= s);
    }
}

/// Executable test for [`is_space`].
fn is_space_exec(c: char) -> (r: bool)
    ensures
        r == is_space(c),
{
    let u = c as u32;
    (0x09 <= u && u <= 0x0D) || u == 0x20 || u == 0x85 || u == 0xA0 || u == 0x1680 || (0x2000 <= u
        && u <= 0x200A) || u == 0x2028 || u == 0x2029 || u == 0x202F || u == 0x205F || u == 0x3000
}

/// The digit value of a character, when it is one.
fn digit_of(c: char) -> (r: Option<u32>)
    ensures
        match r {
            Some(d) => is_digit(c) && d == digit_val(c),
            None => !is_digit(c),
        },
{
    let u = c as u32;
    if 48 <= u && u <= 57 {
        Some(u - 48)
    } else {
        None
    }
}

/// First occurrence of `c` in `s` within `[lo, hi)`, scanning left to right.
fn find_in(s: &str, lo: usize, hi: usize, c: char) -> (r: Option<usize>)
    requires
        lo <= hi,
        hi as int <= s@.len(),
    ensures
        match r {
            Some(j) => lo <= j < hi && s@[j as int] == c && (forall|k: int|
                lo <= k < j ==> s@[k] != c),
            None => forall|k: int| lo <= k < hi ==> s@[k] != c,
        },
{
    let mut j = lo;
    while j < hi
        invariant
            lo <= j <= hi,
            hi as int <= s@.len(),
            forall|k: int| lo <= k < j ==> s@[k] != c,
        decreases hi - j,
    {
        if s.get_char(j) == c {
            return Some(j);
        }
        j = j + 1;
    }
    None
}

/// Reads the token at `[lo, hi)` as a `u32` numeral, exactly when
/// [`parses_as_u32`] accepts it.
fn parse_u32_tok(s: &str, lo: usize, hi: usize) -> (r: Option<u32>)
    requires
        lo <= hi,
        hi as int <= s@.len(),
    ensures
        ({
            let t = s@.subrange(lo as int, hi as int);
            match r {
                Some(v) => parses_as_u32(t) && v as int == dec_val(t),
                None => !parses_as_u32(t),
            }
        }),
{
    let ghost t = s@.subrange(lo as int, hi as int);
    if lo == hi {
        return None;
    }
    let mut acc: u64 = 0;
    let mut j = lo;
    while j < hi
        invariant
            lo <= j <= hi,
            hi as int <= s@.len(),
            t == s@.subrange(lo as int, hi as int),
            all_digits(t.take(j - lo)),
            acc as int == dec_val(t.take(j - lo)),
            acc <= u32::MAX,
        decreases hi - j,
    {
        let c = s.get_char(j);
        assert(c == t[j - lo]);
        match digit_of(c) {
            None => {
                assert(!all_digits(t));
                return None;
            },
            Some(d) => {
                let next: u64 = acc * 10 + d as u64;
                proof {
                    assert(t.take(j - lo + 1).drop_last() =~= t.take(j - lo));
                    assert(t.take(j - lo + 1).last() == t[j - lo]);
                }
                if next > u32::MAX as u64 {
                    proof {
                        if all_digits(t) {
                            lemma_dec_val_extend(t, j - lo + 1);
                        }
                    }
                    return None;
                }
                acc = next;
                j = j + 1;
            },
        }
    }
    proof {
        assert(t.take(hi - lo) =~= t);
    }
    Some(acc as u32)
}

/// The three stage tags have pairwise different lengths.
proof fn lemma_tag_lens()
    ensures
        alpha_tag().len() == 5,
        beta_tag().len() == 4,
        release_tag().len() == 7,
{
}

/// Matches the token at `[lo, hi)` against the three stage tags.
fn match_stage(s: &str, lo: usize, hi: usize) -> (r: Option<VersionStage>)
    requires
        lo <= hi,
        hi as int <= s@.len(),
    ensures
        r == stage_of_tag(s@.subrange(lo as int, hi as int)),
{
    let ghost t = s@.subrange(lo as int, hi as int);
    proof {
        lemma_tag_lens();
    }
    let len = hi - lo;
    if len == 5 {
        if s.get_char(lo) == 'a' && s.get_char(lo + 1) == 'l' && s.get_char(lo + 2) == 'p'
            && s.get_char(lo + 3) == 'h' && s.get_char(lo + 4) == 'a' {
            proof {
                assert(t =~= alpha_tag());
            }
            Some(VersionStage::Alpha)
        } else {
            proof {
                assert(t[0] == s@[lo as int]);
                assert(t[1] == s@[lo + 1]);
                assert(t[2] == s@[lo + 2]);
                assert(t[3] == s@[lo + 3]);
                assert(t[4] == s@[lo + 4]);
                assert(t != alpha_tag());
            }
            None
        }
    } else if len == 4 {
        if s.get_char(lo) == 'b' && s.get_char(lo + 1) == 'e' && s.get_char(lo + 2) == 't'
            && s.get_char(lo + 3) == 'a' {
            proof {
                assert(t =~= beta_tag());
            }
            Some(VersionStage::Beta)
        } else {
            proof {
                assert(t[0] == s@[lo as int]);
                assert(t[1] == s@[lo + 1]);
                assert(t[2] == s@[lo + 2]);
                assert(t[3] == s@[lo + 3]);
                assert(t != beta_tag());
            }
            None
        }
    } else if len == 7 {
        if s.get_char(lo) == 'r' && s.get_char(lo + 1) == 'e' && s.get_char(lo + 2) == 'l'
            && s.get_char(lo + 3) == 'e' && s.get_char(lo + 4) == 'a' && s.get_char(lo + 5) == 's'
            && s.get_char(lo + 6) == 'e' {
            proof {
                assert(t =~= release_tag());
            }
            Some(VersionStage::Release)
        } else {
            proof {
                assert(t[0] == s@[lo as int]);
                assert(t[1] == s@[lo + 1]);
                assert(t[2] == s@[lo + 2]);
                assert(t[3] == s@[lo + 3]);
                assert(t[4] == s@[lo + 4]);
                assert(t[5] == s@[lo + 5]);
                assert(t[6] == s@[lo + 6]);
                assert(t != release_tag());
            }
            None
        }
    } else {
        proof {
            assert(t.len() == len);
            assert(alpha_tag().len() == 5);
            assert(beta_tag().len() == 4);
            assert(release_tag().len() == 7);
        }
        None
    }
}

/// A split has at least one piece.
proof fn lemma_split_len_pos(s: Seq<char>, c: char)
    ensures
        split_at_char(s, c).len() >= 1,
{
    if find_char(s, c) is Some {
        lemma_find_char_some(s, c);
    }
}

/// Reads the dotted `major.minor.patch` triple in `[lo, hi)`, following the
/// split of that range on `.`: exactly three pieces, each a `u32` numeral,
/// with a field-identifying error otherwise.
fn parse_triple(s: &str, lo: usize, hi: usize) -> (r: Result<(u32, u32, u32), ParseError>)
    requires
        lo <= hi,
        hi as int <= s@.len(),
    ensures
        ({
            let pieces = split_at_char(s@.subrange(lo as int, hi as int), '.');
            match r {
                Ok(mnp) => pieces.len() == 3 && parses_as_u32(pieces[0]) && parses_as_u32(
                    pieces[1],
                ) && parses_as_u32(pieces[2]) && mnp.0 as int == dec_val(pieces[0])
                    && mnp.1 as int == dec_val(pieces[1]) && mnp.2 as int == dec_val(pieces[2]),
                Err(e) => {
                    ||| (e == ParseError::NotThreePart && pieces.len() != 3)
                    ||| (e == ParseError::BadMajor && pieces.len() == 3 && !parses_as_u32(
                        pieces[0],
                    ))
                    ||| (e == ParseError::BadMinor && pieces.len() == 3 && parses_as_u32(pieces[0])
                        && !parses_as_u32(pieces[1]))
                    ||| (e == ParseError::BadPatch && pieces.len() == 3 && parses_as_u32(pieces[0])
                        && parses_as_u32(pieces[1]) && !parses_as_u32(pieces[2]))
                },
            }
        }),
{
    let ghost core = s@.subrange(lo as int, hi as int);
    let d1 = match find_in(s, lo, hi, '.') {
        None => {
            proof {
                assert forall|k: int| 0 <= k < core.len() implies core[k] != '.' by {
                    assert(core[k] == s@[lo + k]);
                }
                lemma_split_whole(core, '.');
            }
            return Err(ParseError::NotThreePart);
        },
        Some(p) => p,
    };
    let ghost rest1 = s@.subrange(d1 + 1, hi as int);
    proof {
        assert forall|k: int| 0 <= k < d1 - lo implies core[k] != '.' by {
            assert(core[k] == s@[lo + k]);
        }
        assert(core[d1 - lo] == s@[d1 as int]);
        lemma_split_step(core, '.', d1 - lo);
        assert(core.skip(d1 - lo + 1) =~= rest1);
    }
    let d2 = match find_in(s, d1 + 1, hi, '.') {
        None => {
            proof {
                assert forall|k: int| 0 <= k < rest1.len() implies rest1[k] != '.' by {
                    assert(rest1[k] == s@[d1 + 1 + k]);
                }
                lemma_split_whole(rest1, '.');
            }
            return Err(ParseError::NotThreePart);
        },
        Some(p) => p,
    };
    let ghost rest2 = s@.subrange(d2 + 1, hi as int);
    proof {
        assert forall|k: int| 0 <= k < d2 - (d1 + 1) implies rest1[k] != '.' by {
            assert(rest1[k] == s@[d1 + 1 + k]);
        }
        assert(rest1[d2 - (d1 + 1)] == s@[d2 as int]);
        lemma_split_step(rest1, '.', d2 - (d1 + 1));
        assert(rest1.skip(d2 - d1) =~= rest2);
    }
    if let Some(p3) = find_in(s, d2 + 1, hi, '.') {
        proof {
            let i3 = p3 - (d2 + 1);
            assert forall|k: int| 0 <= k < i3 implies rest2[k] != '.' by {
                assert(rest2[k] == s@[d2 + 1 + k]);
            }
            assert(rest2[i3] == s@[p3 as int]);
            lemma_split_step(rest2, '.', i3);
            lemma_split_len_pos(rest2.skip(i3 + 1), '.');
            assert(split_at_char(core, '.').len() >= 4);
        }
        return Err(ParseError::NotThreePart);
    }
    proof {
        assert forall|k: int| 0 <= k < rest2.len() implies rest2[k] != '.' by {
            assert(rest2[k] == s@[d2 + 1 + k]);
        }
        lemma_split_whole(rest2, '.');
        assert(core.take(d1 - lo) =~= s@.subrange(lo as int, d1 as int));
        assert(rest1.take(d2 - (d1 + 1)) =~= s@.subrange(d1 + 1, d2 as int));
        assert(split_at_char(core, '.') =~= seq![
            s@.subrange(lo as int, d1 as int),
            s@.subrange(d1 + 1, d2 as int),
            rest2,
        ]);
    }
    let major = match parse_u32_tok(s, lo, d1) {
        None => {
            return Err(ParseError::BadMajor);
        },
        Some(v) => v,
    };
    let minor = match parse_u32_tok(s, d1 + 1, d2) {
        None => {
            return Err(ParseError::BadMinor);
        },
        Some(v) => v,
    };
    let patch = match parse_u32_tok(s, d2 + 1, hi) {
        None => {
            return Err(ParseError::BadPatch);
        },
        Some(v) => v,
    };
    Ok((major, minor, patch))
}

/// Reads the stage part in `[lo, hi)`, following the split of that range on
/// `.`: a stage tag, then an optional build numeral; tokens past the build are
/// ignored.
fn parse_stage_build(s: &str, lo: usize, hi: usize) -> (r: Result<(VersionStage, u32), ParseError>)
    requires
        lo <= hi,
        hi as int <= s@.len(),
    ensures
        ({
            let toks = split_at_char(s@.subrange(lo as int, hi as int), '.');
            match r {
                Ok(sb) => stage_of_tag(toks[0]) == Some(sb.0) && (if toks.len() > 1 {
                    parses_as_u32(toks[1]) && sb.1 as int == dec_val(toks[1])
                } else {
                    sb.1 == 0
                }),
                Err(e) => {
                    ||| (e == ParseError::BadStage && stage_of_tag(toks[0]) is None)
                    ||| (e == ParseError::BadBuild && stage_of_tag(toks[0]) is Some && toks.len()
                        > 1 && !parses_as_u32(toks[1]))
                },
            }
        }),
{
    let ghost sp = s@.subrange(lo as int, hi as int);
    let q1 = find_in(s, lo, hi, '.');
    let tag_end: usize = match q1 {
        Some(q) => q,
        None => hi,
    };
    proof {
        match q1 {
            Some(q) => {
                assert forall|k: int| 0 <= k < q - lo implies sp[k] != '.' by {
                    assert(sp[k] == s@[lo + k]);
                }
                assert(sp[q - lo] == s@[q as int]);
                lemma_split_step(sp, '.', q - lo);
                assert(sp.take(q - lo) =~= s@.subrange(lo as int, q as int));
                lemma_split_len_pos(sp.skip(q - lo + 1), '.');
            },
            None => {
                assert forall|k: int| 0 <= k < sp.len() implies sp[k] != '.' by {
                    assert(sp[k] == s@[lo + k]);
                }
                lemma_split_whole(sp, '.');
            },
        }
    }
    let stage = match match_stage(s, lo, tag_end) {
        None => {
            return Err(ParseError::BadStage);
        },
        Some(st) => st,
    };
    let q = match q1 {
        None => {
            return Ok((stage, 0));
        },
        Some(q) => q,
    };
    let ghost sprest = s@.subrange(q + 1, hi as int);
    proof {
        assert(sp.skip(q - lo + 1) =~= sprest);
    }
    let bt_end: usize = match find_in(s, q + 1, hi, '.') {
        Some(q2) => {
            proof {
                assert forall|k: int| 0 <= k < q2 - (q + 1) implies sprest[k] != '.' by {
                    assert(sprest[k] == s@[q + 1 + k]);
                }
                assert(sprest[q2 - (q + 1)] == s@[q2 as int]);
                lemma_split_step(sprest, '.', q2 - (q + 1));
                assert(sprest.take(q2 - (q + 1)) =~= s@.subrange(q + 1, q2 as int));
            }
            q2
        },
        None => {
            proof {
                assert forall|k: int| 0 <= k < sprest.len() implies sprest[k] != '.' by {
                    assert(sprest[k] == s@[q + 1 + k]);
                }
                lemma_split_whole(sprest, '.');
            }
            hi
        },
    };
    proof {
        assert(split_at_char(sp, '.')[1] == s@.subrange(q + 1, bt_end as int));
        assert(split_at_char(sp, '.').len() > 1);
    }
    match parse_u32_tok(s, q + 1, bt_end) {
        None => Err(ParseError::BadBuild),
        Some(build) => Ok((stage, build)),
    }
}

impl Version {
    /// Parses a version string: whitespace is trimmed and leading `v` markers
    /// dropped, the part before the first `-` must be a dotted
    /// `major.minor.patch` triple of `u32` numerals, and the optional part
    /// after it a stage tag (`alpha`, `beta` or `release`) followed by an
    /// optional `.build` numeral. Absent stage means `Release` with build 0.
    ///
    /// Returns exactly what [`parse_spec`] states, each malformed field
    /// yielding its own error.
    pub fn parse(s: &str) -> (r: Result<Version, ParseError>)
        ensures
            r == parse_spec(s@),
    {
        let n = s.unicode_len();
        let mut lo: usize = 0;
        while lo < n && is_space_exec(s.get_char(lo))
            invariant
                lo <= n,
                n == s@.len(),
                forall|k: int| 0 <= k < lo ==> is_space(s@[k]),
            decreases n - lo,
        {
            lo = lo + 1;
        }
        let mut hi: usize = n;
        while hi > lo && is_space_exec(s.get_char(hi - 1))
            invariant
                lo <= hi <= n,
                n == s@.len(),
                forall|k: int| hi <= k < n ==> is_space(s@[k]),
            decreases hi,
        {
            hi = hi - 1;
        }
        let mut start: usize = lo;
        while start < hi && s.get_char(start) == 'v'
            invariant
                lo <= start <= hi <= n,
                n == s@.len(),
                forall|k: int| lo <= k < start ==> s@[k] == 'v',
            decreases hi - start,
        {
            start = start + 1;
        }
        let ghost t = s@.subrange(start as int, hi as int);
        proof {
            lemma_trim_front_index(s@, lo as int);
            let f = s@.skip(lo as int);
            assert forall|i: int| hi - lo <= i < f.len() implies is_space(f[i]) by {
                assert(f[i] == s@[i + lo]);
            }
            lemma_trim_back_index(f, hi - lo);
            let g = f.take(hi - lo);
            assert(g =~= s@.subrange(lo as int, hi as int));
            assert forall|i: int| 0 <= i < start - lo implies g[i] == 'v' by {
                assert(g[i] == s@[i + lo]);
            }
            lemma_strip_markers_index(g, start - lo);
            assert(g.skip(start - lo) =~= t);
            assert(cleaned(s@) == t);
        }
        if start == hi {
            return Err(ParseError::EmptyInput);
        }
        // Split off the optional stage part at the first `-`.
        let dash = find_in(s, start, hi, '-');
        let cend: usize = match dash {
            Some(d) => d,
            None => hi,
        };
        let ghost core = s@.subrange(start as int, cend as int);
        proof {
            match dash {
                Some(d) => {
                    assert forall|k: int| 0 <= k < d - start implies t[k] != '-' by {
                        assert(t[k] == s@[start + k]);
                    }
                    assert(t[d - start] == s@[d as int]);
                    lemma_find_char_at(t, '-', d - start);
                    assert(t.take(d - start) =~= core);
                },
                None => {
                    assert forall|k: int| 0 <= k < t.len() implies t[k] != '-' by {
                        assert(t[k] == s@[start + k]);
                    }
                    lemma_find_char_none(t, '-');
                    assert(t =~= core);
                },
            }
            assert(core_part(t) == core);
        }
        let triple = match parse_triple(s, start, cend) {
            Err(e) => {
                return Err(e);
            },
            Ok(v) => v,
        };
        let (major, minor, patch) = triple;
        let d = match dash {
            None => {
                return Ok(
                    Version { major, minor, patch, stage: VersionStage::Release, build: 0 },
                );
            },
            Some(d) => d,
        };
        let ghost sp = s@.subrange(d + 1, hi as int);
        proof {
            assert(t.skip(d - start + 1) =~= sp);
            assert(stage_part(t) == Some(sp));
        }
        match parse_stage_build(s, d + 1, hi) {
            Err(e) => Err(e),
            Ok(sb) => {
                let (stage, build) = sb;
                Ok(Version { major, minor, patch, stage, build })
            },
        }
    }
}

/// Relies on `String::push`: appends exactly the one character.
#[verifier::external_body]
fn push_char(out: &mut String, c: char)
    ensures
        final(out)@ == old(out)@ + seq![c],
{
    out.push(c);
}

/// The digit character of a value below ten.
fn digit_char_exec(d: u32) -> (c: char)
    requires
        d < 10,
    ensures
        c == digit_char(d as int),
{
    match d {
        0 => '0',
        1 => '1',
        2 => '2',
        3 => '3',
        4 => '4',
        5 => '5',
        6 => '6',
        7 => '7',
        8 => '8',
        _ => '9',
    }
}

/// Appends the canonical decimal numeral of `n`.
fn push_dec(out: &mut String, n: u32)
    ensures
        final(out)@ == old(out)@ + dec_str(n as nat),
{
    let ghost base = out@;
    let mut digits: Vec<char> = Vec::new();
    let mut m: u32 = n;
    digits.push(digit_char_exec(m % 10));
    m = m / 10;
    while m > 0
        invariant
            if m > 0 {
                dec_str(n as nat) == dec_str(m as nat) + digits@.reverse()
            } else {
                dec_str(n as nat) == digits@.reverse()
            },
        decreases m,
    {
        let ghost before = digits@;
        digits.push(digit_char_exec(m % 10));
        proof {
            assert(digits@.reverse() =~= seq![digit_char((m % 10) as int)] + before.reverse());
            if m >= 10 {
                assert(dec_str(m as nat) == dec_str((m / 10) as nat) + seq![
                    digit_char((m % 10) as int),
                ]);
                assert(dec_str((m / 10) as nat) + seq![digit_char((m % 10) as int)]
                    + before.reverse() =~= dec_str((m / 10) as nat) + digits@.reverse());
            } else {
                assert(dec_str(m as nat) == seq![digit_char(m as int)]);
                assert(seq![digit_char((m % 10) as int)] + before.reverse() =~= digits@.reverse());
            }
        }
        m = m / 10;
    }
    proof {
        if n < 10 {
            assert(dec_str(n as nat) == seq![digit_char(n as int)]);
            assert(digits@.reverse() =~= digits@);
        }
    }
    let len = digits.len();
    let mut j: usize = 0;
    while j < len
        invariant
            j <= len,
            len == digits@.len(),
            dec_str(n as nat) == digits@.reverse(),
            out@ == base + digits@.reverse().take(j as int),
        decreases len - j,
    {
        push_char(out, digits[len - 1 - j]);
        proof {
            assert(digits@.reverse()[j as int] == digits@[len - 1 - j]);
            assert(digits@.reverse().take(j + 1) =~= digits@.reverse().take(j as int) + seq![
                digits@.reverse()[j as int],
            ]);
        }
        j = j + 1;
    }
    proof {
        assert(digits@.reverse().take(len as int) =~= digits@.reverse());
    }
}

impl Version {
    /// Renders the canonical string form, exactly [`render_spec`]:
    /// `major.minor.patch`, a `-alpha`/`-beta` tag for pre-releases, and a
    /// `.build` suffix (after a re-inserted `-release` tag on releases) when
    /// the build is non-zero.
    pub fn render(&self) -> (r: String)
        ensures
            r@ == render_spec(*self),
    {
        let mut out = String::new();
        push_dec(&mut out, self.major);
        push_char(&mut out, '.');
        push_dec(&mut out, self.minor);
        push_char(&mut out, '.');
        push_dec(&mut out, self.patch);
        proof {
            assert(out@ =~= render_core(*self));
        }
        match self.stage {
            VersionStage::Alpha => {
                push_char(&mut out, '-');
                push_char(&mut out, 'a');
                push_char(&mut out, 'l');
                push_char(&mut out, 'p');
                push_char(&mut out, 'h');
                push_char(&mut out, 'a');
            },
            VersionStage::Beta => {
                push_char(&mut out, '-');
                push_char(&mut out, 'b');
                push_char(&mut out, 'e');
                push_char(&mut out, 't');
                push_char(&mut out, 'a');
            },
            VersionStage::Release => {},
        }
        proof {
            assert(out@ =~= render_core(*self) + render_stage(*self));
        }
        if self.build > 0 {
            if matches!(self.stage, VersionStage::Release) {
                push_char(&mut out, '-');
                push_char(&mut out, 'r');
                push_char(&mut out, 'e');
                push_char(&mut out, 'l');
                push_char(&mut out, 'e');
                push_char(&mut out, 'a');
                push_char(&mut out, 's');
                push_char(&mut out, 'e');
            }
            push_char(&mut out, '.');
            push_dec(&mut out, self.build);
        }
        proof {
            assert(out@ =~= render_spec(*self));
        }
        out
    }
}

/// A digit character carries its value.
proof fn lemma_digit_char_val(d: int)
    requires
        0 <= d < 10,
    ensures
        is_digit(digit_char(d)),
        digit_val(digit_char(d)) == d,
{
}

/// A canonical numeral is a non-empty digit string.
proof fn lemma_dec_str_digits(n: nat)
    ensures
        all_digits(dec_str(n)),
        dec_str(n).len() >= 1,
    decreases n,
{
    if n < 10 {
        lemma_digit_char_val(n as int);
    } else {
        lemma_dec_str_digits(n / 10);
        lemma_digit_char_val((n % 10) as int);
        let w = dec_str(n / 10) + seq![digit_char((n % 10) as int)];
        assert forall|k: int| 0 <= k < w.len() implies is_digit(w[k]) by {
            if k < dec_str(n / 10).len() {
                assert(w[k] == dec_str(n / 10)[k]);
            }
        }
    }
}

/// Reading a canonical numeral back gives the number.
proof fn lemma_dec_val_dec_str(n: nat)
    ensures
        dec_val(dec_str(n)) == n,
    decreases n,
{
    if n < 10 {
        lemma_digit_char_val(n as int);
        let w = dec_str(n);
        assert(w.drop_last() =~= Seq::<char>::empty());
        assert(dec_val(w.drop_last()) == 0);
        assert(w.last() == digit_char(n as int));
        assert(dec_val(w) == dec_val(w.drop_last()) * 10 + digit_val(w.last()));
    } else {
        lemma_dec_val_dec_str(n / 10);
        lemma_digit_char_val((n % 10) as int);
        let a = dec_str(n / 10);
        let w = a + seq![digit_char((n % 10) as int)];
        assert(w.drop_last() =~= a);
        assert(w.last() == digit_char((n % 10) as int));
        assert(dec_val(w) == dec_val(w.drop_last()) * 10 + digit_val(w.last()));
        assert(dec_val(w) == (n / 10) * 10 + (n % 10));
    }
}

/// A digit is none of the characters the parser treats specially.
proof fn lemma_digit_plain(c: char)
    requires
        is_digit(c),
    ensures
        !is_space(c),
        c != 'v',
        c != '-',
        c != '.',
{
}

/// Shape of a rendered `major.minor.patch` core: digits and exactly two dots,
/// splitting back into the three numerals.
proof fn lemma_render_core_facts(v: Version)
    ensures
        render_core(v).len() >= 5,
        forall|k: int|
            0 <= k < render_core(v).len() ==> (is_digit(#[trigger] render_core(v)[k])
                || render_core(v)[k] == '.'),
        is_digit(render_core(v)[0]),
        is_digit(render_core(v)[render_core(v).len() - 1]),
        split_at_char(render_core(v), '.') == seq![
            dec_str(v.major as nat),
            dec_str(v.minor as nat),
            dec_str(v.patch as nat),
        ],
{
    let a = dec_str(v.major as nat);
    let b = dec_str(v.minor as nat);
    let c = dec_str(v.patch as nat);
    lemma_dec_str_digits(v.major as nat);
    lemma_dec_str_digits(v.minor as nat);
    lemma_dec_str_digits(v.patch as nat);
    let core = render_core(v);
    let p1 = a.len() as int;
    let p2 = a.len() + 1 + b.len();
    assert(core.len() == a.len() + b.len() + c.len() + 2);
    assert forall|k: int| 0 <= k < core.len() implies (is_digit(#[trigger] core[k]) || core[k]
        == '.') by {
        if k < p1 {
            assert(core[k] == a[k]);
        } else if k == p1 {
            assert(core[k] == '.');
        } else if k < p2 {
            assert(core[k] == b[k - p1 - 1]);
        } else if k == p2 {
            assert(core[k] == '.');
        } else {
            assert(core[k] == c[k - p2 - 1]);
        }
    }
    assert(core[0] == a[0]);
    assert(core[core.len() - 1] == c[c.len() - 1]);
    assert(core[p1] == '.');
    assert forall|k: int| 0 <= k < p1 implies core[k] != '.' by {
        assert(core[k] == a[k]);
        lemma_digit_plain(a[k]);
    }
    lemma_split_step(core, '.', p1);
    let rest1 = core.skip(p1 + 1);
    assert(rest1 =~= b + seq!['.'] + c);
    assert(rest1[b.len() as int] == '.');
    assert forall|k: int| 0 <= k < b.len() implies rest1[k] != '.' by {
        assert(rest1[k] == b[k]);
        lemma_digit_plain(b[k]);
    }
    lemma_split_step(rest1, '.', b.len() as int);
    let rest2 = rest1.skip(b.len() as int + 1);
    assert(rest2 =~= c);
    assert forall|k: int| 0 <= k < rest2.len() implies rest2[k] != '.' by {
        assert(rest2[k] == c[k]);
        lemma_digit_plain(c[k]);
    }
    lemma_split_whole(rest2, '.');
    assert(core.take(p1) =~= a);
    assert(rest1.take(b.len() as int) =~= b);
    assert(split_at_char(core, '.') =~= seq![a, b, c]);
}

/// Round trip: parsing the canonical form of any version yields that version
/// back.
#[verifier::rlimit(100)]
pub proof fn lemma_render_parse_roundtrip(v: Version)
    ensures
        parse_spec(render_spec(v)) == Ok::<Version, ParseError>(v),
{
    let r = render_spec(v);
    let core = render_core(v);
    lemma_render_core_facts(v);
    lemma_dec_str_digits(v.major as nat);
    lemma_dec_str_digits(v.minor as nat);
    lemma_dec_str_digits(v.patch as nat);
    lemma_dec_val_dec_str(v.major as nat);
    lemma_dec_val_dec_str(v.minor as nat);
    lemma_dec_val_dec_str(v.patch as nat);
    lemma_tag_lens();
    if v.stage is Release && v.build == 0 {
        assert(r =~= core);
        assert(r[0] == core[0]);
        lemma_digit_plain(r[0]);
        lemma_trim_front_index(r, 0);
        lemma_digit_plain(r[r.len() - 1]);
        lemma_trim_back_index(r, r.len() as int);
        lemma_strip_markers_index(r, 0);
        assert(cleaned(r) == r);
        assert forall|k: int| 0 <= k < r.len() implies r[k] != '-' by {
            if is_digit(r[k]) {
                lemma_digit_plain(r[k]);
            }
        }
        lemma_find_char_none(r, '-');
        assert(core_part(r) == r);
        assert(stage_part(r) is None);
        let pieces = split_at_char(core_part(r), '.');
        assert(pieces == seq![
            dec_str(v.major as nat),
            dec_str(v.minor as nat),
            dec_str(v.patch as nat),
        ]);
        assert(parses_as_u32(pieces[0]) && dec_val(pieces[0]) == v.major);
        assert(parses_as_u32(pieces[1]) && dec_val(pieces[1]) == v.minor);
        assert(parses_as_u32(pieces[2]) && dec_val(pieces[2]) == v.patch);
        assert(parse_spec(r) == Ok::<Version, ParseError>(v));
    } else {
        let tagseq = match v.stage {
            VersionStage::Alpha => alpha_tag(),
            VersionStage::Beta => beta_tag(),
            VersionStage::Release => release_tag(),
        };
        let tail: Seq<char> = if v.build > 0 {
            seq!['.'] + dec_str(v.build as nat)
        } else {
            seq![]
        };
        let sp = tagseq + tail;
        assert(r =~= core + seq!['-'] + sp);
        lemma_dec_str_digits(v.build as nat);
        // No character of the stage part is special, so trimming and marker
        // stripping leave the whole string alone.
        assert(r[0] == core[0]);
        lemma_digit_plain(r[0]);
        lemma_trim_front_index(r, 0);
        if v.build > 0 {
            let bs = dec_str(v.build as nat);
            assert(r[r.len() - 1] == bs[bs.len() - 1]);
            lemma_digit_plain(r[r.len() - 1]);
        } else {
            assert(r[r.len() - 1] == tagseq[tagseq.len() - 1]);
            assert(!is_space(r[r.len() - 1]));
        }
        lemma_trim_back_index(r, r.len() as int);
        lemma_strip_markers_index(r, 0);
        assert(cleaned(r) == r);
        // The first `-` stands right after the core.
        assert forall|k: int| 0 <= k < core.len() implies r[k] != '-' by {
            assert(r[k] == core[k]);
            if is_digit(core[k]) {
                lemma_digit_plain(core[k]);
            }
        }
        assert(r[core.len() as int] == '-');
        lemma_find_char_at(r, '-', core.len() as int);
        assert(r.take(core.len() as int) =~= core);
        assert(core_part(r) == core);
        assert(r.skip(core.len() as int + 1) =~= sp);
        assert(stage_part(r) == Some(sp));
        let pieces = split_at_char(core_part(r), '.');
        assert(parses_as_u32(pieces[0]) && dec_val(pieces[0]) == v.major);
        assert(parses_as_u32(pieces[1]) && dec_val(pieces[1]) == v.minor);
        assert(parses_as_u32(pieces[2]) && dec_val(pieces[2]) == v.patch);
        // Split the stage part: the tag, then the build numeral if present.
        assert(stage_of_tag(tagseq) == Some(v.stage));
        if v.build > 0 {
            let bs = dec_str(v.build as nat);
            assert forall|k: int| 0 <= k < tagseq.len() implies sp[k] != '.' by {
                assert(sp[k] == tagseq[k]);
            }
            assert(sp[tagseq.len() as int] == '.');
            lemma_split_step(sp, '.', tagseq.len() as int);
            let rest = sp.skip(tagseq.len() as int + 1);
            assert(rest =~= bs);
            assert forall|k: int| 0 <= k < rest.len() implies rest[k] != '.' by {
                assert(rest[k] == bs[k]);
                lemma_digit_plain(bs[k]);
            }
            lemma_split_whole(rest, '.');
            assert(sp.take(tagseq.len() as int) =~= tagseq);
            let toks = split_at_char(sp, '.');
            assert(toks =~= seq![tagseq, bs]);
            lemma_dec_val_dec_str(v.build as nat);
            assert(parses_as_u32(toks[1]) && dec_val(toks[1]) == v.build);
            assert(parse_spec(r) == Ok::<Version, ParseError>(v));
        } else {
            assert(sp =~= tagseq);
            assert forall|k: int| 0 <= k < sp.len() implies sp[k] != '.' by {
                assert(sp[k] == tagseq[k]);
            }
            lemma_split_whole(sp, '.');
            assert(split_at_char(sp, '.') == seq![sp]);
            assert(parse_spec(r) == Ok::<Version, ParseError>(v));
        }
    }
}

} // verus!
