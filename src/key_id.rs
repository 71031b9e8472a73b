//! Origin key identifiers, derived from a key file's base name.
use vstd::prelude::*;
use vstd::string::*;

verus! {

/// The format version a key file is expected to carry. Each version is tied
/// to the suffix that key files of that version are written with.
#[derive(Clone, Copy, Debug, PartialEq, Eq, Structural)]
pub enum KeyVersion {
    /// `SIG-PUB-1`: public signing key, `<name>-<revision>.pub`.
    PublicSig,
    /// `SIG-SEC-1`: secret signing key, `<name>-<revision>.sig.key`.
    SecretSig,
}

/// Why a key file name could not be turned into a `KeyIdentifier`.
#[derive(Clone, Copy, Debug, PartialEq, Eq, Structural)]
pub enum ParseError {
    /// The base name does not end with the suffix of the expected version.
    VersionMismatch,
    /// The name-with-revision token holds no `-`.
    MissingSeparator,
    /// Nothing stands before the last `-`.
    EmptyName,
    /// The revision after the last `-` is empty or not all decimal digits.
    InvalidRevision,
}

/// A key's name and revision, as the registry addresses it.
#[derive(Debug)]
pub struct KeyIdentifier {
    pub name: String,
    pub revision: String,
}

impl View for KeyIdentifier {
    type V = (Seq<char>, Seq<char>);

    open spec fn view(&self) -> (Seq<char>, Seq<char>) {
        (self.name@, self.revision@)
    }
}

pub open spec fn path_separator() -> char {
    '/'
}

pub open spec fn revision_separator() -> char {
    '-'
}

/// Index of the last occurrence of `c` in `s`, or -1.
pub open spec fn last_index_of(s: Seq<char>, c: char) -> int
    decreases s.len(),
{
    if s.len() == 0 {
        -1
    } else if s.last() == c {
        s.len() - 1
    } else {
        last_index_of(s.drop_last(), c)
    }
}

/// What follows the last path separator.
pub open spec fn base_name(path: Seq<char>) -> Seq<char> {
    path.subrange(last_index_of(path, path_separator()) + 1, path.len() as int)
}

pub open spec fn is_digits(s: Seq<char>) -> bool {
    forall|i: int| 0 <= i < s.len() ==> '0' <= #[trigger] s[i] <= '9'
}

pub open spec fn has_suffix(s: Seq<char>, suffix: Seq<char>) -> bool {
    suffix.len() <= s.len() && s.subrange(s.len() - suffix.len(), s.len() as int) == suffix
}

impl KeyVersion {
    pub open spec fn suffix(self) -> Seq<char> {
        match self {
            KeyVersion::PublicSig => seq!['.', 'p', 'u', 'b'],
            KeyVersion::SecretSig => seq!['.', 's', 'i', 'g', '.', 'k', 'e', 'y'],
        }
    }

    /// The file name suffix of key files of this version.
    pub fn file_suffix(&self) -> (r: &'static str)
        ensures
            r@ == self.suffix(),
    {
        match self {
            KeyVersion::PublicSig => {
                let r = ".pub";
                proof {
                    reveal_strlit(".pub");
                }
                assert(r@ =~= self.suffix());
                r
            },
            KeyVersion::SecretSig => {
                let r = ".sig.key";
                proof {
                    reveal_strlit(".sig.key");
                }
                assert(r@ =~= self.suffix());
                r
            },
        }
    }
}

/// The name-with-revision token: the base name without the version's suffix.
pub open spec fn name_with_rev(path: Seq<char>, version: KeyVersion) -> Seq<char> {
    let b = base_name(path);
    b.subrange(0, b.len() - version.suffix().len())
}

/// The `(name, revision)` pair a key file name stands for, or why it stands
/// for none.
pub open spec fn parse_spec(path: Seq<char>, version: KeyVersion) -> Result<
    (Seq<char>, Seq<char>),
    ParseError,
> {
    if !has_suffix(base_name(path), version.suffix()) {
        Err(ParseError::VersionMismatch)
    } else {
        let tok = name_with_rev(path, version);
        let k = last_index_of(tok, revision_separator());
        if k < 0 {
            Err(ParseError::MissingSeparator)
        } else if k == 0 {
            Err(ParseError::EmptyName)
        } else if k + 1 == tok.len() || !is_digits(tok.subrange(k + 1, tok.len() as int)) {
            Err(ParseError::InvalidRevision)
        } else {
            Ok((tok.subrange(0, k), tok.subrange(k + 1, tok.len() as int)))
        }
    }
}

pub proof fn lemma_last_index_of(s: Seq<char>, c: char)
    ensures
        -1 <= last_index_of(s, c) < s.len(),
        last_index_of(s, c) >= 0 ==> s[last_index_of(s, c)] == c,
        forall|j: int| last_index_of(s, c) < j < s.len() ==> s[j] != c,
    decreases s.len(),
{
    if s.len() > 0 && s.last() != c {
        lemma_last_index_of(s.drop_last(), c);
        assert forall|j: int| last_index_of(s, c) < j < s.len() implies s[j] != c by {
            if j < s.len() - 1 {
                assert(s[j] == s.drop_last()[j]);
            }
        }
    }
}

proof fn lemma_base_name_has_no_separator(path: Seq<char>)
    ensures
        !base_name(path).contains(path_separator()),
{
    lemma_last_index_of(path, path_separator());
    let b = base_name(path);
    let li = last_index_of(path, path_separator());
    if b.contains(path_separator()) {
        let j = choose|j: int| 0 <= j < b.len() && b[j] == path_separator();
        assert(b[j] == path[li + 1 + j]);
    }
}

/// A parsed key file name splits into a non-empty name and a non-empty,
/// all-digit revision, neither holding a path separator, which joined by the
/// revision separator give back the name-with-revision token.
pub proof fn lemma_parse_round_trip(path: Seq<char>, version: KeyVersion)
    requires
        parse_spec(path, version) is Ok,
    ensures
        ({
            let (name, revision) = parse_spec(path, version)->Ok_0;
            &&& name.len() > 0
            &&& revision.len() > 0
            &&& is_digits(revision)
            &&& !name.contains(path_separator())
            &&& !revision.contains(path_separator())
            &&& name + seq![revision_separator()] + revision == name_with_rev(path, version)
        }),
{
    let tok = name_with_rev(path, version);
    let b = base_name(path);
    let k = last_index_of(tok, revision_separator());
    lemma_last_index_of(tok, revision_separator());
    lemma_base_name_has_no_separator(path);
    let (name, revision) = parse_spec(path, version)->Ok_0;
    assert(name + seq![revision_separator()] + revision =~= tok);
    if name.contains(path_separator()) {
        let j = choose|j: int| 0 <= j < name.len() && name[j] == path_separator();
        assert(b[j] == name[j]);
    }
    if revision.contains(path_separator()) {
        let j = choose|j: int| 0 <= j < revision.len() && revision[j] == path_separator();
        assert(b[k + 1 + j] == revision[j]);
    }
}

/// A key file named for one version is refused when another is expected.
pub proof fn lemma_wrong_version_rejected(path: Seq<char>, version: KeyVersion, actual: KeyVersion)
    requires
        version != actual,
        has_suffix(base_name(path), actual.suffix()),
    ensures
        parse_spec(path, version) == Err::<(Seq<char>, Seq<char>), ParseError>(
            ParseError::VersionMismatch,
        ),
{
    let b = base_name(path);
    let sa = actual.suffix();
    let sv = version.suffix();
    assert(b.subrange(b.len() - sa.len(), b.len() as int)[sa.len() - 1] == b[b.len() - 1]);
    if has_suffix(b, sv) {
        assert(b.subrange(b.len() - sv.len(), b.len() as int)[sv.len() - 1] == b[b.len() - 1]);
    }
}

/// A key file name with the expected suffix but no revision separator before
/// it is refused.
pub proof fn lemma_missing_separator_rejected(path: Seq<char>, version: KeyVersion)
    requires
        has_suffix(base_name(path), version.suffix()),
        !name_with_rev(path, version).contains(revision_separator()),
    ensures
        parse_spec(path, version) == Err::<(Seq<char>, Seq<char>), ParseError>(
            ParseError::MissingSeparator,
        ),
{
    lemma_last_index_of(name_with_rev(path, version), revision_separator());
}

proof fn lemma_last_index_of_append(a: Seq<char>, b: Seq<char>, c: char)
    requires
        !b.contains(c),
    ensures
        last_index_of(a + b, c) == last_index_of(a, c),
    decreases b.len(),
{
    if b.len() == 0 {
        assert(a + b =~= a);
    } else {
        assert((a + b).last() == b[b.len() - 1]);
        assert((a + b).drop_last() =~= a + b.drop_last());
        if b.drop_last().contains(c) {
            let j = choose|j: int| 0 <= j < b.drop_last().len() && b.drop_last()[j] == c;
            assert(b[j] == c);
        }
        lemma_last_index_of_append(a, b.drop_last(), c);
    }
}

/// The file name written for a key, in a directory, parses back to the key:
/// `<dir>/<name>-<revision><suffix>`, where the name is non-empty and holds no
/// path separator, and the revision is a non-empty run of digits.
pub proof fn lemma_file_name_parses_back(
    dir: Seq<char>,
    name: Seq<char>,
    revision: Seq<char>,
    version: KeyVersion,
)
    requires
        dir.len() == 0 || dir.last() == path_separator(),
        name.len() > 0,
        !name.contains(path_separator()),
        revision.len() > 0,
        is_digits(revision),
    ensures
        parse_spec(
            dir + name + seq![revision_separator()] + revision + version.suffix(),
            version,
        ) == Ok::<(Seq<char>, Seq<char>), ParseError>((name, revision)),
{
    let sep = seq![revision_separator()];
    let suffix = version.suffix();
    let tok = name + sep + revision;
    let file = tok + suffix;
    let path = dir + name + sep + revision + suffix;
    assert(path =~= dir + file);
    assert(!revision.contains(path_separator()) && !revision.contains(revision_separator())) by {
        if revision.contains(path_separator()) {
            let j = choose|j: int| 0 <= j < revision.len() && revision[j] == path_separator();
            assert('0' <= revision[j] <= '9');
        }
        if revision.contains(revision_separator()) {
            let j = choose|j: int| 0 <= j < revision.len() && revision[j] == revision_separator();
            assert('0' <= revision[j] <= '9');
        }
    }
    assert(!suffix.contains(path_separator())) by {
        if suffix.contains(path_separator()) {
            let j = choose|j: int| 0 <= j < suffix.len() && suffix[j] == path_separator();
        }
    }
    assert(!file.contains(path_separator())) by {
        if file.contains(path_separator()) {
            let j = choose|j: int| 0 <= j < file.len() && file[j] == path_separator();
            if j < name.len() {
                assert(name[j] == file[j]);
            } else if j == name.len() {
            } else if j < tok.len() {
                assert(revision[j - name.len() - 1] == file[j]);
            } else {
                assert(suffix[j - tok.len()] == file[j]);
            }
        }
    }
    lemma_last_index_of_append(dir, file, path_separator());
    if dir.len() > 0 {
        assert(last_index_of(dir, path_separator()) == dir.len() - 1);
    } else {
        assert(last_index_of(dir, path_separator()) == -1);
    }
    assert(base_name(path) =~= file);
    assert(file.subrange(file.len() - suffix.len(), file.len() as int) =~= suffix);
    assert(name_with_rev(path, version) =~= tok);
    lemma_last_index_of_append(name + sep, revision, revision_separator());
    assert(last_index_of(name + sep, revision_separator()) == name.len());
    assert(tok.subrange(0, name.len() as int) =~= name);
    assert(tok.subrange(name.len() + 1 as int, tok.len() as int) =~= revision);
}

fn find_last(s: &str, c: char) -> (r: Option<usize>)
    ensures
        match r {
            None => last_index_of(s@, c) == -1,
            Some(i) => i == last_index_of(s@, c),
        },
{
    let n = s.unicode_len();
    let mut i: usize = n;
    assert(s@.subrange(0, n as int) =~= s@);
    while i > 0
        invariant
            i <= n,
            n == s@.len(),
            last_index_of(s@, c) == last_index_of(s@.subrange(0, i as int), c),
        decreases i,
    {
        let ch = s.get_char(i - 1);
        if ch == c {
            return Some(i - 1);
        }
        assert(s@.subrange(0, i as int).drop_last() =~= s@.subrange(0, i - 1));
        i = i - 1;
    }
    None
}

fn ends_with(s: &str, suffix: &str) -> (r: bool)
    ensures
        r == has_suffix(s@, suffix@),
{
    let n = s.unicode_len();
    let m = suffix.unicode_len();
    if m > n {
        return false;
    }
    let start = n - m;
    let mut j: usize = 0;
    while j < m
        invariant
            j <= m,
            n == s@.len(),
            m == suffix@.len(),
            start == n - m,
            forall|k: int| 0 <= k < j ==> s@[start + k] == suffix@[k],
        decreases m - j,
    {
        if s.get_char(start + j) != suffix.get_char(j) {
            assert(s@.subrange(start as int, n as int)[j as int] != suffix@[j as int]);
            return false;
        }
        j = j + 1;
    }
    assert(s@.subrange(start as int, n as int) =~= suffix@);
    true
}

fn all_digits(s: &str) -> (r: bool)
    ensures
        r == is_digits(s@),
{
    let n = s.unicode_len();
    let mut j: usize = 0;
    while j < n
        invariant
            j <= n,
            n == s@.len(),
            forall|k: int| 0 <= k < j ==> '0' <= #[trigger] s@[k] <= '9',
        decreases n - j,
    {
        let ch = s.get_char(j);
        if !('0' <= ch && ch <= '9') {
            return false;
        }
        j = j + 1;
    }
    true
}

/// Derives the key identifier from a key file's path: the base name must end
/// with the suffix of `version`, and what precedes the suffix splits at its
/// last `-` into a non-empty name and an all-digit revision.
pub fn parse_key_file(path: &str, version: KeyVersion) -> (r: Result<KeyIdentifier, ParseError>)
    ensures
        match r {
            Ok(id) => parse_spec(path@, version) == Ok::<(Seq<char>, Seq<char>), ParseError>(id@),
            Err(e) => parse_spec(path@, version) == Err::<(Seq<char>, Seq<char>), ParseError>(e),
        },
{
    proof {
        lemma_last_index_of(path@, path_separator());
    }
    let n = path.unicode_len();
    let start = match find_last(path, '/') {
        None => 0,
        Some(i) => i + 1,
    };
    let base = path.substring_char(start, n);
    let suffix = version.file_suffix();
    if !ends_with(base, suffix) {
        return Err(ParseError::VersionMismatch);
    }
    let bl = base.unicode_len();
    let sl = suffix.unicode_len();
    let token = base.substring_char(0, bl - sl);
    assert(token@ == name_with_rev(path@, version));
    proof {
        lemma_last_index_of(token@, revision_separator());
    }
    match find_last(token, '-') {
        None => Err(ParseError::MissingSeparator),
        Some(k) => {
            if k == 0 {
                return Err(ParseError::EmptyName);
            }
            let tl = token.unicode_len();
            if k + 1 == tl {
                return Err(ParseError::InvalidRevision);
            }
            let rev = token.substring_char(k + 1, tl);
            if !all_digits(rev) {
                return Err(ParseError::InvalidRevision);
            }
            let name = token.substring_char(0, k);
            Ok(KeyIdentifier { name: String::from_str(name), revision: String::from_str(rev) })
        },
    }
}

} // verus!
