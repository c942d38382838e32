//! Which release a build belongs to, and where newer ones are found.

use vstd::prelude::*;
use vstd::string::*;

use crate::text;

pub mod laws;

verus! {

/// The command that installs the latest release.
pub const FORK_INSTALL_COMMAND: &'static str =
    "curl -fsSL https://raw.githubusercontent.com/epsalmond/codex/eric/local-features/install.sh | bash";

/// The version of the features that this project adds, whatever it is built on.
pub const SHAKE_FEATURE_VERSION: &'static str = "0.1.0";

/// The environment variable that names another repository.
pub const CODEX_SHAKE_REPO_ENV: &'static str = "CODEX_SHAKE_REPO";

/// The repository of the releases.
pub const DEFAULT_FORK_REPO: &'static str = "epsalmond/codex";

/// Where the release notes are.
pub const FORK_RELEASE_NOTES_URL: &'static str = "https://github.com/epsalmond/codex/releases";

/// How the tag of every release begins.
pub const FORK_TAG_PREFIX: &'static str = "local-features-v";

/// The version of the features, for a build that belongs to a release.
pub fn shake_feature_version(release_tag: Option<&str>) -> (version: Option<&'static str>)
    ensures
        match version {
            Some(version) => release_tag is Some && version@ == SHAKE_FEATURE_VERSION@,
            None => release_tag is None,
        },
{
    match release_tag {
        Some(_) => Some(SHAKE_FEATURE_VERSION),
        None => None,
    }
}

/// Whether a build belongs to a release.
pub fn is_fork_build(release_tag: Option<&str>) -> (r: bool)
    ensures
        r == release_tag is Some,
{
    release_tag.is_some()
}

/// The repository that is configured, or the one of the releases.
pub fn fork_repository(configured: Option<String>) -> (repo: String)
    ensures
        repo@ == (match configured {
            Some(configured) if configured@.len() > 0 => configured@,
            _ => DEFAULT_FORK_REPO@,
        }),
{
    match configured {
        Some(configured) => {
            if configured.as_str().is_empty() {
                DEFAULT_FORK_REPO.to_owned()
            } else {
                configured
            }
        },
        None => DEFAULT_FORK_REPO.to_owned(),
    }
}

/// Where the releases of a repository are listed.
pub fn fork_releases_api_url_for_repo(repo: &str) -> (url: String)
    ensures
        url@ == "https://api.github.com/repos/"@ + repo@ + "/releases?per_page=30"@,
{
    let mut url = "https://api.github.com/repos/".to_owned();
    url.append(repo);
    url.append("/releases?per_page=30");
    url
}

/// Words as one line for a shell, each quoted where it has to be.
pub uninterp spec fn shell_joined(words: Seq<Seq<char>>) -> Seq<char>;

/// `shlex::try_join` makes one line for a shell of some words. It refuses words
/// with a nul in them, and only those; how it quotes is a function of the words.
#[verifier::external_body]
fn shell_join(first: &str, second: &str, third: &str) -> (line: Option<String>)
    ensures
        match line {
            Some(line) => {
                &&& line@ == shell_joined(seq![first@, second@, third@])
                &&& !first@.contains('\0') && !second@.contains('\0') && !third@.contains('\0')
            },
            None => first@.contains('\0') || second@.contains('\0') || third@.contains('\0'),
        },
{
    shlex::try_join([first, second, third]).ok()
}

/// Where the installer of a repository is.
pub open spec fn install_script_url(repo: Seq<char>) -> Seq<char> {
    "https://raw.githubusercontent.com/"@ + repo + "/eric/local-features/install.sh"@
}

/// The command that installs the latest release of a repository. The name of a
/// repository holds no nul.
pub fn fork_install_command_for_repo(repo: &str) -> (command: String)
    requires
        !repo@.contains('\0'),
    ensures
        command@ == shell_joined(seq!["curl"@, "-fsSL"@, install_script_url(repo@)]) + " | bash"@,
{
    let mut script_url = "https://raw.githubusercontent.com/".to_owned();
    script_url.append(repo);
    script_url.append("/eric/local-features/install.sh");
    proof {
        reveal_strlit("https://raw.githubusercontent.com/");
        reveal_strlit("/eric/local-features/install.sh");
        reveal_strlit("curl");
        reveal_strlit("-fsSL");
        text::lemma_absent_concat("https://raw.githubusercontent.com/"@, repo@, '\0');
        text::lemma_absent_concat(
            "https://raw.githubusercontent.com/"@ + repo@,
            "/eric/local-features/install.sh"@,
            '\0',
        );
    }
    match shell_join("curl", "-fsSL", script_url.as_str()) {
        Some(mut command) => {
            command.append(" | bash");
            command
        },
        None => {
            assert(false);
            String::new()
        },
    }
}

/// What a tag says of its release.
#[derive(Debug, PartialEq, Eq)]
pub struct ReleaseIdentity {
    /// The counter in the tag, to the second.
    pub normalized_counter: Option<u64>,
    /// The digits that the counter has in the tag.
    pub counter_precision: Option<u8>,
    /// The place among the releases of one second.
    pub source_sequence: Option<u64>,
    /// Decides between releases that are alike in all the rest.
    pub tie_break: String,
}

/// The value of a [`ReleaseIdentity`].
#[verifier::ext_equal]
pub struct IdentityView {
    pub normalized_counter: Option<nat>,
    pub counter_precision: Option<nat>,
    pub source_sequence: Option<nat>,
    pub tie_break: Seq<char>,
}

/// A number where there is one.
pub open spec fn as_nat(n: Option<u64>) -> Option<nat> {
    match n {
        Some(n) => Some(n as nat),
        None => None,
    }
}

impl DeepView for ReleaseIdentity {
    type V = IdentityView;

    open spec fn deep_view(&self) -> IdentityView {
        IdentityView {
            normalized_counter: as_nat(self.normalized_counter),
            counter_precision: match self.counter_precision {
                Some(n) => Some(n as nat),
                None => None,
            },
            source_sequence: as_nat(self.source_sequence),
            tie_break: self.tie_break@,
        }
    }
}

/// Where the digits from `from` on end.
pub open spec fn digit_end(s: Seq<char>, from: int) -> int
    decreases s.len() - from,
{
    if 0 <= from < s.len() && text::is_digit(s[from]) {
        digit_end(s, from + 1)
    } else {
        from
    }
}

pub(crate) proof fn lemma_digit_end(s: Seq<char>, from: int)
    requires
        0 <= from <= s.len(),
    ensures
        from <= digit_end(s, from) <= s.len(),
        forall|i: int| from <= i < digit_end(s, from) ==> text::is_digit(#[trigger] s[i]),
    decreases s.len() - from,
{
    if from < s.len() && text::is_digit(s[from]) {
        lemma_digit_end(s, from + 1);
    }
}

pub(crate) proof fn lemma_digit_end_at(s: Seq<char>, from: int, end: int)
    requires
        0 <= from <= end <= s.len(),
        forall|i: int| from <= i < end ==> text::is_digit(#[trigger] s[i]),
        end < s.len() ==> !text::is_digit(s[end]),
    ensures
        digit_end(s, from) == end,
    decreases end - from,
{
    if from < end {
        assert(text::is_digit(s[from]));
        lemma_digit_end_at(s, from + 1, end);
    }
}

fn digits_until(s: &[char], from: usize) -> (end: usize)
    requires
        from <= s@.len(),
    ensures
        end == digit_end(s@, from as int),
        from <= end <= s@.len(),
{
    let mut end = from;
    while end < s.len() && '0' <= s[end] && s[end] <= '9'
        invariant
            from <= end <= s@.len(),
            digit_end(s@, from as int) == digit_end(s@, end as int),
        decreases s@.len() - end,
    {
        end = end + 1;
    }
    end
}

/// Three numbers with dots between them.
pub open spec fn is_numbers(s: Seq<char>) -> bool {
    let first = digit_end(s, 0);
    let second = digit_end(s, first + 1);
    let third = digit_end(s, second + 1);
    &&& 0 < first < s.len() && s[first] == '.'
    &&& first + 1 < second < s.len() && s[second] == '.'
    &&& second + 1 < third && third == s.len()
}

/// A version: three numbers, behind a `v` or not, before `-main` or not.
pub open spec fn is_fork_version(version: Seq<char>) -> bool {
    is_numbers(text::without_suffix(text::without_prefix(version, "v"@), "-main"@))
}

fn valid_numbers(s: &[char]) -> (r: bool)
    ensures
        r == is_numbers(s@),
{
    let first = digits_until(s, 0);
    if first == 0 || first >= s.len() || s[first] != '.' {
        return false;
    }
    let second = digits_until(s, first + 1);
    if second == first + 1 || second >= s.len() || s[second] != '.' {
        return false;
    }
    let third = digits_until(s, second + 1);
    third > second + 1 && third == s.len()
}

/// Whether a text is a version.
pub fn valid_fork_version(version: &[char]) -> (r: bool)
    ensures
        r == is_fork_version(version@),
{
    proof {
        reveal_strlit("v");
        reveal_strlit("-main");
    }
    let version = if text::has_prefix(version, "v") {
        let bare = vstd::slice::slice_subrange(version, 1, version.len());
        assert(bare@ == version@.skip(1));
        bare
    } else {
        version
    };
    let version = if text::has_suffix(version, "-main") {
        let bare = vstd::slice::slice_subrange(version, 0, version.len() - 5);
        assert(bare@ == version@.take(version@.len() - 5));
        bare
    } else {
        version
    };
    valid_numbers(version)
}

/// A hexadecimal digit.
pub open spec fn is_hex(c: char) -> bool {
    text::is_digit(c) || 'a' <= c <= 'f' || 'A' <= c <= 'F'
}

/// Every character is a hexadecimal digit.
pub open spec fn all_hex(s: Seq<char>) -> bool {
    forall|i: int| 0 <= i < s.len() ==> is_hex(#[trigger] s[i])
}

/// The number that a hexadecimal digit stands for.
pub open spec fn hex_digit(c: char) -> nat {
    if text::is_digit(c) {
        (c as u32 - 48) as nat
    } else if 'a' <= c <= 'f' {
        (c as u32 - 87) as nat
    } else {
        (c as u32 - 55) as nat
    }
}

/// The number that a row of hexadecimal digits stands for.
pub open spec fn hex_value(s: Seq<char>) -> nat
    decreases s.len(),
{
    if s.len() == 0 {
        0
    } else {
        hex_value(s.drop_last()) * 16 + hex_digit(s.last())
    }
}

fn is_hex_text(s: &[char]) -> (r: bool)
    ensures
        r == all_hex(s@),
{
    let mut i: usize = 0;
    while i < s.len()
        invariant
            i <= s@.len(),
            forall|k: int| 0 <= k < i ==> is_hex(#[trigger] s@[k]),
        decreases s@.len() - i,
    {
        let c = s[i];
        if !(('0' <= c && c <= '9') || ('a' <= c && c <= 'f') || ('A' <= c && c <= 'F')) {
            assert(!is_hex(s@[i as int]));
            return false;
        }
        i = i + 1;
    }
    true
}

/// The greatest number with `n` hexadecimal digits is below this one.
pub open spec fn hex_limit(n: nat) -> nat
    decreases n,
{
    if n == 0 {
        1
    } else {
        16 * hex_limit((n - 1) as nat)
    }
}

fn hex_number(s: &[char]) -> (n: u64)
    requires
        all_hex(s@),
        s@.len() <= 16,
    ensures
        n == hex_value(s@),
{
    let mut n: u64 = 0;
    let mut i: usize = 0;
    assert(hex_limit(0) == 1);
    while i < s.len()
        invariant
            i <= s@.len() <= 16,
            all_hex(s@),
            n == hex_value(s@.take(i as int)),
            n < hex_limit(i as nat),
            hex_limit(i as nat) <= 0x1_0000_0000_0000_0000,
        decreases s@.len() - i,
    {
        let c = s[i];
        assert(is_hex(s@[i as int]));
        let d: u64 = if '0' <= c && c <= '9' {
            (c as u32 - 48) as u64
        } else if 'a' <= c && c <= 'f' {
            (c as u32 - 87) as u64
        } else {
            (c as u32 - 55) as u64
        };
        proof {
            assert(d == hex_digit(c));
            assert(s@.take(i + 1).drop_last() == s@.take(i as int));
            assert(hex_limit((i + 1) as nat) == 16 * hex_limit(i as nat));
            lemma_hex_limit((i + 1) as nat);
        }
        n = n * 16 + d;
        i = i + 1;
    }
    assert(s@.take(i as int) == s@);
    n
}

proof fn lemma_hex_limit(n: nat)
    requires
        n <= 16,
    ensures
        hex_limit(n) <= 0x1_0000_0000_0000_0000,
{
    reveal_with_fuel(hex_limit, 17);
}

/// The counter of a tag, to the second: a counter to the minute has no seconds.
pub open spec fn counter_of(digits: Seq<char>) -> nat {
    if digits.len() == 12 {
        text::digits_value(digits + "00"@)
    } else {
        text::digits_value(digits)
    }
}

/// What decides between releases that are alike in all the rest.
pub open spec fn tie_break_of(version: Seq<char>, suffix: Seq<char>) -> Seq<char> {
    text::to_ascii_lower(version + ":"@ + suffix)
}

/// What a version, a counter and a suffix say of a release.
pub open spec fn counted_identity(
    version: Seq<char>,
    digits: Seq<char>,
    suffix: Seq<char>,
) -> IdentityView {
    IdentityView {
        normalized_counter: Some(counter_of(digits)),
        counter_precision: Some(digits.len() % 256),
        source_sequence: if suffix.len() == 28 {
            Some(hex_value(suffix.take(16)))
        } else {
            None
        },
        tie_break: tie_break_of(version, suffix),
    }
}

/// What a tag with a counter says of its release. `at` is where the counter
/// is announced, and `rest` is the tag without its beginning.
pub open spec fn identity_with_counter(rest: Seq<char>, at: int) -> Option<IdentityView> {
    let version = rest.take(at);
    let tail = rest.skip(at + 2);
    let n = digit_end(tail, 0);
    let digits = tail.take(n);
    let suffix = tail.skip(n + 1);
    if is_fork_version(version) && 0 < n < tail.len() && tail[n] == '.' && suffix.len() > 0
        && all_hex(suffix) && counter_of(digits) <= u64::MAX {
        Some(counted_identity(version, digits, suffix))
    } else {
        None
    }
}

/// What a tag without a counter says of its release.
pub open spec fn identity_without_counter(rest: Seq<char>) -> Option<IdentityView> {
    match text::rfind(rest, "-"@) {
        Some(at) => {
            let version = rest.take(at);
            let suffix = rest.skip(at + 1);
            if is_fork_version(version) && suffix.len() == 12 && all_hex(suffix) {
                Some(
                    IdentityView {
                        normalized_counter: None,
                        counter_precision: None,
                        source_sequence: None,
                        tie_break: tie_break_of(version, suffix),
                    },
                )
            } else {
                None
            }
        },
        None => None,
    }
}

/// What a tag says of its release, if it is the tag of one.
pub open spec fn release_identity(tag: Seq<char>) -> Option<IdentityView> {
    if text::starts_with(tag, FORK_TAG_PREFIX@) {
        let rest = tag.skip(FORK_TAG_PREFIX@.len() as int);
        match text::rfind(rest, "-r"@) {
            Some(at) => identity_with_counter(rest, at),
            None => identity_without_counter(rest),
        }
    } else {
        None
    }
}

fn tie_break(version: &[char], suffix: &[char]) -> (r: String)
    ensures
        r@ == tie_break_of(version@, suffix@),
{
    proof {
        reveal_strlit(":");
    }
    let mut joined = vstd::slice::slice_to_vec(version);
    joined.push(':');
    let mut i: usize = 0;
    while i < suffix.len()
        invariant
            i <= suffix@.len(),
            joined@ == version@ + ":"@ + suffix@.take(i as int),
        decreases suffix@.len() - i,
    {
        joined.push(suffix[i]);
        i = i + 1;
    }
    assert(joined@ == version@ + ":"@ + suffix@);
    let lowered = text::lower_chars(joined.as_slice());
    text::string_of(lowered.as_slice())
}

fn read_counted(rest: &[char], at: usize) -> (identity: Option<ReleaseIdentity>)
    requires
        at + 2 <= rest@.len(),
    ensures
        identity.deep_view() == identity_with_counter(rest@, at as int),
{
    let len = rest.len();
    let version = vstd::slice::slice_subrange(rest, 0, at);
    assert(version@ == rest@.take(at as int));
    if !valid_fork_version(version) {
        return None;
    }
    let tail = vstd::slice::slice_subrange(rest, at + 2, len);
    assert(tail@ == rest@.skip(at + 2));
    let n = digits_until(tail, 0);
    if n == 0 || n >= tail.len() || tail[n] != '.' {
        return None;
    }
    let digits = vstd::slice::slice_subrange(tail, 0, n);
    assert(digits@ == tail@.take(n as int));
    let suffix = vstd::slice::slice_subrange(tail, n + 1, tail.len());
    assert(suffix@ == tail@.skip(n + 1));
    if suffix.len() == 0 || !is_hex_text(suffix) {
        return None;
    }
    let mut normalized = vstd::slice::slice_to_vec(digits);
    if n == 12 {
        normalized.push('0');
        normalized.push('0');
    }
    proof {
        reveal_strlit("00");
        assert(n == 12 ==> normalized@ == digits@ + "00"@);
        lemma_digit_end(tail@, 0);
        assert forall|k: int| 0 <= k < normalized@.len() implies text::is_digit(
            #[trigger] normalized@[k],
        ) by {
            if k < n {
                assert(text::is_digit(tail@[k]));
            }
        }
    }
    let counter = match text::parse_u64(normalized.as_slice()) {
        Some(counter) => counter,
        None => {
            return None;
        },
    };
    let sequence = if suffix.len() == 28 {
        let head = vstd::slice::slice_subrange(suffix, 0, 16);
        assert(head@ == suffix@.take(16));
        Some(hex_number(head))
    } else {
        None
    };
    Some(
        ReleaseIdentity {
            normalized_counter: Some(counter),
            counter_precision: Some((n % 256) as u8),
            source_sequence: sequence,
            tie_break: tie_break(version, suffix),
        },
    )
}

fn read_uncounted(rest: &[char]) -> (identity: Option<ReleaseIdentity>)
    ensures
        identity.deep_view() == identity_without_counter(rest@),
{
    proof {
        reveal_strlit("-");
    }
    let len = rest.len();
    match text::last_position_of(rest, "-") {
        Some(at) => {
            let version = vstd::slice::slice_subrange(rest, 0, at);
            assert(version@ == rest@.take(at as int));
            let suffix = vstd::slice::slice_subrange(rest, at + 1, len);
            assert(suffix@ == rest@.skip(at + 1));
            if !valid_fork_version(version) || suffix.len() != 12 || !is_hex_text(suffix) {
                return None;
            }
            Some(
                ReleaseIdentity {
                    normalized_counter: None,
                    counter_precision: None,
                    source_sequence: None,
                    tie_break: tie_break(version, suffix),
                },
            )
        },
        None => None,
    }
}

/// What a tag says of its release, if it is the tag of one.
pub fn fork_release_identity(tag: &str) -> (identity: Option<ReleaseIdentity>)
    ensures
        identity.deep_view() == release_identity(tag@),
{
    let chars = text::chars_of(tag);
    if !text::has_prefix(chars.as_slice(), FORK_TAG_PREFIX) {
        return None;
    }
    let prefix_len = text::chars_of(FORK_TAG_PREFIX).len();
    let rest = vstd::slice::slice_subrange(chars.as_slice(), prefix_len, chars.len());
    assert(rest@ == tag@.skip(prefix_len as int));
    proof {
        reveal_strlit("-r");
    }
    match text::last_position_of(rest, "-r") {
        Some(at) => read_counted(rest, at),
        None => read_uncounted(rest),
    }
}

/// Whether a tag is the tag of a release.
pub fn is_fork_release_tag(tag: &str) -> (r: bool)
    ensures
        r == release_identity(tag@) is Some,
{
    fork_release_identity(tag).is_some()
}

/// A number where there is one, and less than any where there is none.
pub open spec fn rank(n: Option<nat>) -> int {
    match n {
        Some(n) => n as int,
        None => -1,
    }
}

/// The release `a` is older than `b`: by the counter, then by its digits, then
/// by the place within a second, then by the text.
pub open spec fn identity_before(a: IdentityView, b: IdentityView) -> bool {
    if a.normalized_counter != b.normalized_counter {
        rank(a.normalized_counter) < rank(b.normalized_counter)
    } else if a.counter_precision != b.counter_precision {
        rank(a.counter_precision) < rank(b.counter_precision)
    } else if a.source_sequence != b.source_sequence {
        rank(a.source_sequence) < rank(b.source_sequence)
    } else {
        text::lex_before(a.tie_break, b.tie_break)
    }
}

/// The tag `a` comes before `b`. The tag of a release comes after any other.
pub open spec fn tag_before(a: Seq<char>, b: Seq<char>) -> bool {
    match (release_identity(a), release_identity(b)) {
        (Some(left), Some(right)) => identity_before(left, right),
        (Some(_), None) => false,
        (None, Some(_)) => true,
        (None, None) => text::lex_before(a, b),
    }
}

fn number_before(a: Option<u64>, b: Option<u64>) -> (r: bool)
    ensures
        r == (rank(as_nat(a)) < rank(as_nat(b))),
{
    match (a, b) {
        (Some(a), Some(b)) => a < b,
        (None, Some(_)) => true,
        _ => false,
    }
}

fn precision_of(n: Option<u8>) -> (r: Option<u64>)
    ensures
        as_nat(r) == (match n {
            Some(n) => Some(n as nat),
            None => None,
        }),
{
    match n {
        Some(n) => Some(n as u64),
        None => None,
    }
}

fn is_identity_before(a: &ReleaseIdentity, b: &ReleaseIdentity) -> (r: bool)
    ensures
        r == identity_before(a.deep_view(), b.deep_view()),
{
    if number_before(a.normalized_counter, b.normalized_counter) {
        return true;
    }
    if number_before(b.normalized_counter, a.normalized_counter) {
        return false;
    }
    let left = precision_of(a.counter_precision);
    let right = precision_of(b.counter_precision);
    if number_before(left, right) {
        return true;
    }
    if number_before(right, left) {
        return false;
    }
    if number_before(a.source_sequence, b.source_sequence) {
        return true;
    }
    if number_before(b.source_sequence, a.source_sequence) {
        return false;
    }
    text_before(a.tie_break.as_str(), b.tie_break.as_str())
}

fn text_before(a: &str, b: &str) -> (r: bool)
    ensures
        r == text::lex_before(a@, b@),
{
    let a = text::chars_of(a);
    let b = text::chars_of(b);
    text::is_before(a.as_slice(), b.as_slice())
}

/// Decides [`tag_before`].
fn is_tag_before(a: &str, b: &str) -> (r: bool)
    ensures
        r == tag_before(a@, b@),
{
    match (fork_release_identity(a), fork_release_identity(b)) {
        (Some(left), Some(right)) => is_identity_before(&left, &right),
        (Some(_), None) => false,
        (None, Some(_)) => true,
        (None, None) => text_before(a, b),
    }
}

/// How two tags are ordered.
pub fn compare_fork_release_tags(left: &str, right: &str) -> (order: core::cmp::Ordering)
    ensures
        order == (if tag_before(left@, right@) {
            core::cmp::Ordering::Less
        } else if tag_before(right@, left@) {
            core::cmp::Ordering::Greater
        } else {
            core::cmp::Ordering::Equal
        }),
{
    if is_tag_before(left, right) {
        core::cmp::Ordering::Less
    } else if is_tag_before(right, left) {
        core::cmp::Ordering::Greater
    } else {
        core::cmp::Ordering::Equal
    }
}

/// A release, as the list of releases has it.
#[derive(Debug, PartialEq, Eq)]
pub struct ForkReleaseEntry {
    pub tag_name: String,
    pub draft: bool,
}

/// An entry is a release that can be installed.
pub open spec fn is_release(entry: ForkReleaseEntry) -> bool {
    !entry.draft && release_identity(entry.tag_name@) is Some
}

/// Entry `i` is the newest release: none is newer, and of those that are as new
/// it is the last in the list.
pub open spec fn is_newest(entries: Seq<ForkReleaseEntry>, i: int) -> bool {
    &&& 0 <= i < entries.len()
    &&& is_release(entries[i])
    &&& forall|j: int|
        0 <= j < entries.len() && is_release(#[trigger] entries[j]) ==> if j <= i {
            !tag_before(entries[i].tag_name@, entries[j].tag_name@)
        } else {
            tag_before(entries[j].tag_name@, entries[i].tag_name@)
        }
}

/// The tag of the newest release in a list. The list need not be in order.
pub fn newest_fork_release_tag(entries: &Vec<ForkReleaseEntry>) -> (tag: Option<String>)
    ensures
        match tag {
            Some(tag) => exists|i: int| #[trigger]
                is_newest(entries@, i) && tag@ == entries@[i].tag_name@,
            None => forall|j: int| 0 <= j < entries@.len() ==> !is_release(#[trigger] entries@[j]),
        },
{
    let mut best: Option<usize> = None;
    let mut i: usize = 0;
    while i < entries.len()
        invariant
            i <= entries@.len(),
            match best {
                Some(b) => b < i && is_newest(entries@.take(i as int), b as int),
                None => forall|j: int| 0 <= j < i ==> !is_release(#[trigger] entries@[j]),
            },
        decreases entries@.len() - i,
    {
        let ghost seen = entries@.take(i as int);
        let ghost now = entries@.take(i + 1);
        assert(forall|j: int| 0 <= j < i ==> now[j] == #[trigger] seen[j]);
        assert(now[i as int] == entries@[i as int]);
        let entry = &entries[i];
        if !entry.draft && is_fork_release_tag(entry.tag_name.as_str()) {
            match best {
                Some(b) => {
                    let outranked = is_tag_before(
                        entry.tag_name.as_str(),
                        entries[b].tag_name.as_str(),
                    );
                    if outranked {
                        proof {
                            assert forall|j: int|
                                0 <= j < now.len() && is_release(#[trigger] now[j]) implies if j
                                <= b {
                                !tag_before(now[b as int].tag_name@, now[j].tag_name@)
                            } else {
                                tag_before(now[j].tag_name@, now[b as int].tag_name@)
                            } by {
                                if j < i {
                                    assert(is_release(seen[j]));
                                }
                            }
                            assert(is_newest(now, b as int));
                        }
                    } else {
                        proof {
                            assert forall|j: int|
                                0 <= j < now.len() && is_release(#[trigger] now[j]) implies !tag_before(
                                now[i as int].tag_name@,
                                now[j].tag_name@,
                            ) by {
                                if j < i {
                                    assert(is_release(seen[j]));
                                    lemma_tag_order(
                                        now[i as int].tag_name@,
                                        now[j].tag_name@,
                                        now[b as int].tag_name@,
                                    );
                                } else {
                                    lemma_tag_order(
                                        now[i as int].tag_name@,
                                        now[i as int].tag_name@,
                                        now[i as int].tag_name@,
                                    );
                                }
                            }
                            assert(is_newest(now, i as int));
                        }
                        best = Some(i);
                    }
                },
                None => {
                    proof {
                        lemma_tag_order(
                            now[i as int].tag_name@,
                            now[i as int].tag_name@,
                            now[i as int].tag_name@,
                        );
                        assert(is_newest(now, i as int));
                    }
                    best = Some(i);
                },
            }
        } else {
            proof {
                if let Some(b) = best {
                    assert forall|j: int|
                        0 <= j < now.len() && is_release(#[trigger] now[j]) implies if j <= b {
                        !tag_before(now[b as int].tag_name@, now[j].tag_name@)
                    } else {
                        tag_before(now[j].tag_name@, now[b as int].tag_name@)
                    } by {
                        assert(j < i);
                        assert(is_release(seen[j]));
                    }
                    assert(is_newest(now, b as int));
                }
            }
        }
        i = i + 1;
    }
    assert(entries@.take(i as int) == entries@);
    match best {
        Some(b) => {
            assert(is_newest(entries@, b as int));
            Some(entries[b].tag_name.clone())
        },
        None => None,
    }
}

/// The release of `candidate` is newer than that of `current`.
pub open spec fn is_newer(candidate: Seq<char>, current: Seq<char>) -> bool {
    &&& candidate != current
    &&& release_identity(candidate) is Some
    &&& tag_before(current, candidate)
}

/// Whether one release is newer than another. A tag without a counter is older
/// than any tag with one, and what is no tag of a release is older than any
/// that is.
pub fn fork_tag_is_newer(candidate: &str, current: &str) -> (r: bool)
    ensures
        r == is_newer(candidate@, current@),
{
    if text::same_text(candidate, current) {
        return false;
    }
    if !is_fork_release_tag(candidate) {
        return false;
    }
    is_tag_before(current, candidate)
}

proof fn lemma_identity_order(a: IdentityView, b: IdentityView, c: IdentityView)
    ensures
        !identity_before(a, a),
        !(identity_before(a, b) && identity_before(b, a)),
        identity_before(a, b) && identity_before(b, c) ==> identity_before(a, c),
        !identity_before(a, c) && !identity_before(c, b) ==> !identity_before(a, b),
        !identity_before(a, b) && !identity_before(b, a) ==> a == b,
{
    text::lemma_lex_before_irreflexive(a.tie_break);
    text::lemma_lex_before_total(a.tie_break, b.tie_break);
    text::lemma_lex_before_total(a.tie_break, c.tie_break);
    text::lemma_lex_before_total(b.tie_break, c.tie_break);
    if text::lex_before(a.tie_break, b.tie_break) && text::lex_before(b.tie_break, c.tie_break) {
        text::lemma_lex_before_transitive(a.tie_break, b.tie_break, c.tie_break);
    }
    if text::lex_before(a.tie_break, b.tie_break) && text::lex_before(c.tie_break, a.tie_break) {
        text::lemma_lex_before_transitive(c.tie_break, a.tie_break, b.tie_break);
    }
}

proof fn lemma_tag_order(a: Seq<char>, b: Seq<char>, c: Seq<char>)
    ensures
        !tag_before(a, a),
        !(tag_before(a, b) && tag_before(b, a)),
        tag_before(a, b) && tag_before(b, c) ==> tag_before(a, c),
        !tag_before(a, c) && !tag_before(c, b) ==> !tag_before(a, b),
{
    let x = release_identity(a);
    let y = release_identity(b);
    let z = release_identity(c);
    if let (Some(x), Some(y), Some(z)) = (x, y, z) {
        lemma_identity_order(x, y, z);
    } else {
        if let Some(x) = x {
            lemma_identity_order(x, x, x);
            if let Some(y) = y {
                lemma_identity_order(x, y, y);
            }
            if let Some(z) = z {
                lemma_identity_order(x, z, z);
            }
        }
        if let (Some(y), Some(z)) = (y, z) {
            lemma_identity_order(y, z, z);
        }
        text::lemma_lex_before_irreflexive(a);
        text::lemma_lex_before_total(a, b);
        text::lemma_lex_before_total(a, c);
        text::lemma_lex_before_total(b, c);
        if text::lex_before(a, b) && text::lex_before(b, c) {
            text::lemma_lex_before_transitive(a, b, c);
        }
        if text::lex_before(a, b) && text::lex_before(c, a) {
            text::lemma_lex_before_transitive(c, a, b);
        }
    }
}

/// Tags are in order: none comes before itself, of two at most one comes before
/// the other, and the order carries over from one pair to the next. So do ties.
pub proof fn law_tags_are_ordered(a: Seq<char>, b: Seq<char>, c: Seq<char>)
    ensures
        !tag_before(a, a),
        !(tag_before(a, b) && tag_before(b, a)),
        tag_before(a, b) && tag_before(b, c) ==> tag_before(a, c),
        !tag_before(a, c) && !tag_before(c, b) ==> !tag_before(a, b),
{
    lemma_tag_order(a, b, c);
}

/// No release is newer than itself, and of two releases at most one is newer.
/// Newer than a newer one is newer. So no chain of updates comes back to where
/// it began.
pub proof fn law_updates_never_go_back(a: Seq<char>, b: Seq<char>, c: Seq<char>)
    ensures
        !is_newer(a, a),
        !(is_newer(a, b) && is_newer(b, a)),
        is_newer(a, b) && is_newer(b, c) ==> is_newer(a, c),
{
    lemma_tag_order(c, b, a);
    lemma_tag_order(a, b, a);
    lemma_tag_order(c, a, a);
}

/// The tag of a release that is made of its parts.
pub open spec fn counted_tag(version: Seq<char>, digits: Seq<char>, suffix: Seq<char>) -> Seq<
    char,
> {
    FORK_TAG_PREFIX@ + (version + "-r"@ + digits + "."@ + suffix)
}

/// A tag that is made of its parts, without its beginning.
spec fn counted_rest(version: Seq<char>, digits: Seq<char>, suffix: Seq<char>) -> Seq<char> {
    version + "-r"@ + digits + "."@ + suffix
}

proof fn lemma_no_later_mark(version: Seq<char>, digits: Seq<char>, suffix: Seq<char>, j: int)
    requires
        text::all_digits(digits),
        all_hex(suffix),
        version.len() < j < counted_rest(version, digits, suffix).len(),
    ensures
        counted_rest(version, digits, suffix)[j] != '-',
{
    reveal_strlit("-r");
    reveal_strlit(".");
    let rest = counted_rest(version, digits, suffix);
    let k = j - version.len() - 2;
    if k < 0 {
        assert(rest[j] == "-r"@[1]);
    } else if k < digits.len() {
        assert(rest[j] == digits[k]);
        assert(text::is_digit(digits[k]));
    } else if k == digits.len() {
        assert(rest[j] == "."@[0]);
    } else {
        assert(rest[j] == suffix[k - digits.len() - 1]);
        assert(is_hex(suffix[k - digits.len() - 1]));
    }
}

proof fn lemma_last_mark(version: Seq<char>, digits: Seq<char>, suffix: Seq<char>)
    requires
        text::all_digits(digits),
        all_hex(suffix),
    ensures
        text::rfind(counted_rest(version, digits, suffix), "-r"@) == Some(version.len() as int),
{
    let rest = counted_rest(version, digits, suffix);
    let at = version.len() as int;
    assert(text::occurs_at(rest, "-r"@, at)) by {
        reveal_strlit("-r");
        assert(rest.subrange(at, at + 2) =~= "-r"@);
    }
    assert forall|j: int| at < j <= rest.len() implies !text::occurs_at(rest, "-r"@, j) by {
        reveal_strlit("-r");
        if text::occurs_at(rest, "-r"@, j) {
            assert(rest.subrange(j, j + 2)[0] == rest[j]);
            lemma_no_later_mark(version, digits, suffix, j);
        }
    }
    text::lemma_rfind_from(rest, "-r"@, rest.len() as int);
}

proof fn lemma_counted_rest(version: Seq<char>, digits: Seq<char>, suffix: Seq<char>)
    requires
        digits.len() > 0,
        text::all_digits(digits),
    ensures
        ({
            let rest = counted_rest(version, digits, suffix);
            let tail = rest.skip(version.len() as int + 2);
            &&& rest.take(version.len() as int) == version
            &&& tail.len() == digits.len() + 1 + suffix.len()
            &&& digit_end(tail, 0) == digits.len()
            &&& tail[digits.len() as int] == '.'
            &&& tail.take(digits.len() as int) == digits
            &&& tail.skip(digits.len() as int + 1) == suffix
        }),
{
    reveal_strlit("-r");
    reveal_strlit(".");
    let rest = counted_rest(version, digits, suffix);
    let tail = rest.skip(version.len() as int + 2);
    let n = digits.len() as int;
    assert(rest.take(version.len() as int) =~= version);
    assert(tail =~= digits + "."@ + suffix);
    assert(tail[n] == '.');
    assert forall|i: int| 0 <= i < n implies text::is_digit(#[trigger] tail[i]) by {
        assert(text::is_digit(digits[i]));
    }
    lemma_digit_end_at(tail, 0, n);
    assert(tail.take(n) =~= digits);
    assert(tail.skip(n + 1) =~= suffix);
}

/// A tag that is made of the parts of a release tells those parts.
pub proof fn law_counted_tags_are_read_back(
    version: Seq<char>,
    digits: Seq<char>,
    suffix: Seq<char>,
)
    requires
        is_fork_version(version),
        digits.len() > 0,
        text::all_digits(digits),
        counter_of(digits) <= u64::MAX,
        suffix.len() > 0,
        all_hex(suffix),
    ensures
        release_identity(counted_tag(version, digits, suffix)) == Some(
            counted_identity(version, digits, suffix),
        ),
{
    let tag = counted_tag(version, digits, suffix);
    let rest = counted_rest(version, digits, suffix);
    let start = FORK_TAG_PREFIX@.len() as int;
    assert(tag.subrange(0, start) =~= FORK_TAG_PREFIX@);
    assert(tag.skip(start) =~= rest);
    lemma_last_mark(version, digits, suffix);
    lemma_counted_rest(version, digits, suffix);
}

/// A counter to the second is newer than a counter to its minute, though that
/// has fewer digits; and a counter to the minute never outranks one to a second
/// of the same minute or a later one.
pub proof fn law_seconds_outrank_their_minute(
    version: Seq<char>,
    minute: Seq<char>,
    suffix: Seq<char>,
    later_version: Seq<char>,
    later_minute: Seq<char>,
    second: Seq<char>,
    later_suffix: Seq<char>,
)
    requires
        is_fork_version(version),
        is_fork_version(later_version),
        minute.len() == 12 && text::all_digits(minute),
        later_minute.len() == 12 && text::all_digits(later_minute),
        second.len() == 2 && text::all_digits(second),
        text::digits_value(minute) <= text::digits_value(later_minute),
        suffix.len() > 0 && all_hex(suffix),
        later_suffix.len() > 0 && all_hex(later_suffix),
        counter_of(minute) <= u64::MAX,
        counter_of(later_minute + second) <= u64::MAX,
    ensures
        is_newer(
            counted_tag(later_version, later_minute + second, later_suffix),
            counted_tag(version, minute, suffix),
        ),
{
    reveal_strlit("00");
    let digits = later_minute + second;
    assert(text::all_digits(digits)) by {
        assert forall|i: int| 0 <= i < digits.len() implies text::is_digit(
            #[trigger] digits[i],
        ) by {
            if i < 12 {
                assert(text::is_digit(later_minute[i]));
            } else {
                assert(text::is_digit(second[i - 12]));
            }
        }
    }
    law_counted_tags_are_read_back(version, minute, suffix);
    law_counted_tags_are_read_back(later_version, digits, later_suffix);
    let zeros = minute + "00"@;
    assert(zeros.drop_last().drop_last() =~= minute);
    assert(digits.drop_last().drop_last() =~= later_minute);
    assert(text::digits_value(zeros) == text::digits_value(zeros.drop_last()) * 10);
    assert(text::digits_value(zeros.drop_last()) == text::digits_value(minute) * 10);
    assert(text::digits_value(digits) >= text::digits_value(digits.drop_last()) * 10);
    assert(text::digits_value(digits.drop_last()) >= text::digits_value(later_minute) * 10);
    lemma_tag_order(
        counted_tag(later_version, digits, later_suffix),
        counted_tag(later_version, digits, later_suffix),
        counted_tag(later_version, digits, later_suffix),
    );
}

} // verus!
