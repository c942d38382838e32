//! What tags tell of releases.

use vstd::prelude::*;
use vstd::string::*;

use crate::fork_update::all_hex;
use crate::fork_update::counted_tag;
use crate::fork_update::digit_end;
use crate::fork_update::hex_value;
use crate::fork_update::identity_with_counter;
use crate::fork_update::identity_without_counter;
use crate::fork_update::install_script_url;
use crate::fork_update::is_fork_version;
use crate::fork_update::is_hex;
use crate::fork_update::is_newer;
use crate::fork_update::is_newest;
use crate::fork_update::is_numbers;
use crate::fork_update::is_release;
use crate::fork_update::law_counted_tags_are_read_back;
use crate::fork_update::lemma_digit_end;
use crate::fork_update::lemma_digit_end_at;
use crate::fork_update::release_identity;
use crate::fork_update::tag_before;
use crate::fork_update::ForkReleaseEntry;
use crate::text;

verus! {

/// At least one digit, and nothing else.
pub open spec fn is_number(s: Seq<char>) -> bool {
    s.len() > 0 && forall|i: int| 0 <= i < s.len() ==> '0' <= #[trigger] s[i] <= '9'
}

proof fn lemma_numbers(a: Seq<char>, b: Seq<char>, c: Seq<char>)
    requires
        is_number(a),
        is_number(b),
        is_number(c),
    ensures
        is_numbers(a + "."@ + b + "."@ + c),
{
    reveal_strlit(".");
    let s = a + "."@ + b + "."@ + c;
    let first = a.len() as int;
    let second = first + 1 + b.len();
    let third = second + 1 + c.len();
    assert(s[first] == '.');
    assert(s[second] == '.');
    assert(s.len() == third);
    assert forall|i: int| 0 <= i < first implies text::is_digit(#[trigger] s[i]) by {
        assert(s[i] == a[i]);
    }
    assert forall|i: int| first + 1 <= i < second implies text::is_digit(#[trigger] s[i]) by {
        assert(s[i] == b[i - first - 1]);
    }
    assert forall|i: int| second + 1 <= i < third implies text::is_digit(#[trigger] s[i]) by {
        assert(s[i] == c[i - second - 1]);
    }
    lemma_digit_end_at(s, 0, first);
    lemma_digit_end_at(s, first + 1, second);
    lemma_digit_end_at(s, second + 1, third);
}

proof fn lemma_numbers_end_in_a_digit(s: Seq<char>)
    requires
        is_numbers(s),
    ensures
        s.len() > 0,
        text::is_digit(s[0]),
        text::is_digit(s.last()),
        forall|i: int| 0 <= i < s.len() ==> text::is_digit(#[trigger] s[i]) || s[i] == '.',
{
    let first = digit_end(s, 0);
    let second = digit_end(s, first + 1);
    lemma_digit_end(s, 0);
    lemma_digit_end(s, first + 1);
    lemma_digit_end(s, second + 1);
}

/// Three numbers with dots between them are a version, behind a `v` or not and
/// before `-main` or not.
pub proof fn law_three_numbers_are_a_version(
    v: bool,
    a: Seq<char>,
    b: Seq<char>,
    c: Seq<char>,
    main: bool,
)
    requires
        is_number(a),
        is_number(b),
        is_number(c),
    ensures
        ({
            let numbers = a + "."@ + b + "."@ + c;
            let behind = if v {
                "v"@ + numbers
            } else {
                numbers
            };
            is_fork_version(
                if main {
                    behind + "-main"@
                } else {
                    behind
                },
            )
        }),
{
    reveal_strlit("v");
    reveal_strlit("-main");
    let numbers = a + "."@ + b + "."@ + c;
    lemma_numbers(a, b, c);
    lemma_numbers_end_in_a_digit(numbers);
    let tail = if main {
        numbers + "-main"@
    } else {
        numbers
    };
    let behind = if v {
        "v"@ + numbers
    } else {
        numbers
    };
    let version = if main {
        behind + "-main"@
    } else {
        behind
    };
    if v {
        assert(version.subrange(0, 1) =~= "v"@);
        assert(version.skip(1) =~= tail);
    } else {
        assert(version.subrange(0, 1)[0] == numbers[0]);
        assert("v"@[0] == 'v');
        assert(version =~= tail);
    }
    assert(text::without_prefix(version, "v"@) == tail);
    if main {
        let n = numbers.len() as int;
        assert(tail.subrange(n, n + 5) =~= "-main"@);
        assert(tail.take(n) =~= numbers);
    } else if text::ends_with(tail, "-main"@) {
        let n = tail.len() - 5;
        assert(tail.subrange(n, n + 5)[4] == tail.last());
        assert("-main"@[4] == 'n');
    }
    assert(text::without_suffix(tail, "-main"@) == numbers);
}

/// Nothing else is a version: each has three numbers in it.
pub proof fn law_versions_are_three_numbers(version: Seq<char>) -> (parts: (
    Seq<char>,
    Seq<char>,
    Seq<char>,
))
    requires
        is_fork_version(version),
    ensures
        is_number(parts.0) && is_number(parts.1) && is_number(parts.2),
        ({
            let numbers = parts.0 + "."@ + parts.1 + "."@ + parts.2;
            ||| version == numbers
            ||| version == "v"@ + numbers
            ||| version == numbers + "-main"@
            ||| version == "v"@ + numbers + "-main"@
        }),
{
    reveal_strlit(".");
    let tail = text::without_prefix(version, "v"@);
    let s = text::without_suffix(tail, "-main"@);
    let first = digit_end(s, 0);
    let second = digit_end(s, first + 1);
    lemma_digit_end(s, 0);
    lemma_digit_end(s, first + 1);
    lemma_digit_end(s, second + 1);
    let a = s.take(first);
    let b = s.subrange(first + 1, second);
    let c = s.skip(second + 1);
    assert forall|i: int| 0 <= i < a.len() implies '0' <= #[trigger] a[i] <= '9' by {
        assert(text::is_digit(s[i]));
    }
    assert forall|i: int| 0 <= i < b.len() implies '0' <= #[trigger] b[i] <= '9' by {
        assert(text::is_digit(s[i + first + 1]));
    }
    assert forall|i: int| 0 <= i < c.len() implies '0' <= #[trigger] c[i] <= '9' by {
        assert(text::is_digit(s[i + second + 1]));
    }
    assert(s =~= a + "."@ + b + "."@ + c);
    if text::starts_with(version, "v"@) {
        assert(version =~= "v"@ + tail) by {
            assert(version.subrange(0, "v"@.len() as int) == "v"@);
        }
    }
    if text::ends_with(tail, "-main"@) {
        let n = tail.len() - "-main"@.len();
        assert(tail =~= s + "-main"@) by {
            assert(tail.subrange(n, tail.len() as int) == "-main"@);
        }
    }
    assert("v"@ + s + "-main"@ =~= "v"@ + (s + "-main"@));
    (a, b, c)
}

/// Hexadecimal digits stand for sixteen numbers, whatever their case, and each
/// place counts sixteen times the next.
pub proof fn law_hexadecimal_numbers(s: Seq<char>, c: char)
    ensures
        is_hex(c) == ("0123456789abcdef"@ + "ABCDEF"@).contains(c),
        hex_value(Seq::empty()) == 0,
        '0' <= c <= '9' ==> hex_value(s.push(c)) == 16 * hex_value(s) + (c as u32 - '0' as u32),
        'a' <= c <= 'f' ==> hex_value(s.push(c)) == 16 * hex_value(s) + 10 + (c as u32
            - 'a' as u32),
        'A' <= c <= 'F' ==> hex_value(s.push(c)) == 16 * hex_value(s) + 10 + (c as u32
            - 'A' as u32),
{
    reveal_strlit("0123456789abcdef");
    reveal_strlit("ABCDEF");
    assert(s.push(c).drop_last() =~= s);
    let all = "0123456789abcdef"@ + "ABCDEF"@;
    if '0' <= c <= '9' {
        assert(all[c as u32 - '0' as u32] == c);
    } else if 'a' <= c <= 'f' {
        assert(all[10 + (c as u32 - 'a' as u32)] == c);
    } else if 'A' <= c <= 'F' {
        assert(all[16 + (c as u32 - 'A' as u32)] == c);
    }
    assert forall|i: int| 0 <= i < all.len() implies is_hex(#[trigger] all[i]) by {}
}

/// A release is told by the counter in its tag. One to the minute counts as its
/// first second. A suffix of full length begins with the place among the
/// releases of that second.
pub proof fn law_tags_with_a_counter(version: Seq<char>, digits: Seq<char>, suffix: Seq<char>)
    requires
        is_fork_version(version),
        is_number(digits),
        digits.len() < 256,
        suffix.len() > 0,
        all_hex(suffix),
        digits.len() != 12 ==> text::digits_value(digits) <= u64::MAX,
    ensures
        release_identity(
            "local-features-v"@ + version + "-r"@ + digits + "."@ + suffix,
        ) matches Some(identity) && {
            &&& identity.normalized_counter == Some(
                if digits.len() == 12 {
                    100 * text::digits_value(digits)
                } else {
                    text::digits_value(digits)
                },
            )
            &&& identity.counter_precision == Some(digits.len())
            &&& identity.source_sequence == if suffix.len() == 28 {
                Some(hex_value(suffix.take(16)))
            } else {
                None
            }
            &&& identity.tie_break == text::to_ascii_lower(version + ":"@ + suffix)
        },
{
    reveal_strlit("00");
    let zeros = digits + "00"@;
    assert(text::all_digits(digits));
    if digits.len() == 12 {
        assert(zeros.drop_last().drop_last() =~= digits);
        assert(text::digits_value(zeros) == text::digits_value(zeros.drop_last()) * 10);
        assert(text::digits_value(zeros.drop_last()) == text::digits_value(digits) * 10);
        lemma_twelve_digits(digits);
    }
    law_counted_tags_are_read_back(version, digits, suffix);
    assert(counted_tag(version, digits, suffix) =~= "local-features-v"@ + version + "-r"@ + digits
        + "."@ + suffix);
}

/// The greatest number with `n` digits is below this one.
spec fn digit_limit(n: nat) -> nat
    decreases n,
{
    if n == 0 {
        1
    } else {
        10 * digit_limit((n - 1) as nat)
    }
}

proof fn lemma_digit_limit(s: Seq<char>)
    requires
        text::all_digits(s),
    ensures
        text::digits_value(s) < digit_limit(s.len()),
    decreases s.len(),
{
    if s.len() > 0 {
        let front = s.drop_last();
        assert forall|i: int| 0 <= i < front.len() implies text::is_digit(#[trigger] front[i]) by {
            assert(text::is_digit(s[i]));
        }
        lemma_digit_limit(front);
        assert(text::is_digit(s.last()));
    }
}

proof fn lemma_twelve_digits(s: Seq<char>)
    requires
        s.len() == 12,
        text::all_digits(s),
    ensures
        100 * text::digits_value(s) <= u64::MAX,
{
    lemma_digit_limit(s);
    reveal_with_fuel(digit_limit, 13);
}

/// Where a tag has no counter, its suffix has twelve hexadecimal digits, and
/// only the text decides.
pub proof fn law_tags_without_a_counter(version: Seq<char>, suffix: Seq<char>)
    requires
        is_fork_version(version),
        suffix.len() == 12,
        all_hex(suffix),
    ensures
        release_identity("local-features-v"@ + version + "-"@ + suffix) matches Some(identity) && {
            &&& identity.normalized_counter is None
            &&& identity.counter_precision is None
            &&& identity.source_sequence is None
            &&& identity.tie_break == text::to_ascii_lower(version + ":"@ + suffix)
        },
{
    reveal_strlit("-r");
    reveal_strlit("-");
    let rest = version + "-"@ + suffix;
    let prefix = "local-features-v"@;
    let tag = prefix + version + "-"@ + suffix;
    let n = prefix.len() as int;
    assert(tag.subrange(0, n) =~= prefix);
    assert(tag.skip(n) =~= rest);
    let at = version.len() as int;
    assert forall|j: int| !text::occurs_at(rest, "-r"@, j) by {
        if text::occurs_at(rest, "-r"@, j) {
            assert(rest.subrange(j, j + 2)[1] == rest[j + 1]);
            assert("-r"@[1] == 'r');
            if j + 1 < at {
                lemma_version_has_no_r(version, j + 1);
            } else if j + 1 == at {
                assert(rest[at] == "-"@[0]);
            } else {
                assert(is_hex(suffix[j + 1 - at - 1]));
            }
        }
    }
    text::lemma_rfind_from(rest, "-r"@, rest.len() as int);
    assert(rest.subrange(at, at + 1) =~= "-"@);
    assert(text::occurs_at(rest, "-"@, at));
    assert forall|j: int| at < j implies !text::occurs_at(rest, "-"@, j) by {
        if text::occurs_at(rest, "-"@, j) {
            assert(rest.subrange(j, j + 1)[0] == rest[j]);
            assert(is_hex(suffix[j - at - 1]));
        }
    }
    text::lemma_rfind_from(rest, "-"@, rest.len() as int);
    assert(rest.take(at) =~= version);
    assert(rest.skip(at + 1) =~= suffix);
}

proof fn lemma_version_has_no_r(version: Seq<char>, i: int)
    requires
        is_fork_version(version),
        0 <= i < version.len(),
    ensures
        version[i] != 'r',
{
    reveal_strlit("v");
    reveal_strlit("-main");
    reveal_strlit(".");
    let parts = law_versions_are_three_numbers(version);
    let numbers = parts.0 + "."@ + parts.1 + "."@ + parts.2;
    lemma_numbers(parts.0, parts.1, parts.2);
    lemma_numbers_end_in_a_digit(numbers);
    assert forall|k: int| 0 <= k < numbers.len() implies #[trigger] numbers[k] != 'r' by {
        assert(text::is_digit(numbers[k]) || numbers[k] == '.');
    }
    let n = numbers.len() as int;
    if version == numbers {
    } else if version == "v"@ + numbers {
        if i > 0 {
            assert(version[i] == numbers[i - 1]);
        }
    } else if version == numbers + "-main"@ {
        if i < n {
            assert(version[i] == numbers[i]);
        } else {
            assert(version[i] == "-main"@[i - n]);
        }
    } else {
        if i == 0 {
            assert(version[i] == "v"@[0]);
        } else if i < n + 1 {
            assert(version[i] == numbers[i - 1]);
        } else {
            assert(version[i] == "-main"@[i - n - 1]);
        }
    }
}

/// Nothing else is the tag of a release: each is made of a version, of a counter
/// or not, and of a suffix of hexadecimal digits.
pub proof fn law_tags_of_releases(tag: Seq<char>) -> (parts: (
    Seq<char>,
    Option<Seq<char>>,
    Seq<char>,
))
    requires
        release_identity(tag) is Some,
    ensures
        is_fork_version(parts.0),
        all_hex(parts.2),
        parts.2.len() > 0,
        match parts.1 {
            Some(digits) => is_number(digits) && tag == "local-features-v"@ + parts.0 + "-r"@
                + digits + "."@ + parts.2,
            None => parts.2.len() == 12 && tag == "local-features-v"@ + parts.0 + "-"@ + parts.2,
        },
{
    let prefix = "local-features-v"@;
    let n = prefix.len() as int;
    let rest = tag.skip(n);
    assert(tag =~= prefix + rest) by {
        assert(tag.subrange(0, n) == prefix);
    }
    match text::rfind(rest, "-r"@) {
        Some(at) => {
            let (version, digits, suffix) = lemma_counted_parts(rest, at);
            lemma_regroup(prefix, version, "-r"@, digits + "."@ + suffix, rest);
            lemma_regroup(prefix + version + "-r"@, digits, "."@, suffix, digits + "."@ + suffix);
            (version, Some(digits), suffix)
        },
        None => {
            let (version, suffix) = lemma_uncounted_parts(rest);
            lemma_regroup(prefix, version, "-"@, suffix, rest);
            (version, None, suffix)
        },
    }
}

proof fn lemma_regroup(a: Seq<char>, b: Seq<char>, c: Seq<char>, d: Seq<char>, rest: Seq<char>)
    requires
        rest == b + c + d,
    ensures
        a + rest == a + b + c + d,
{
    assert(a + (b + c + d) =~= a + b + c + d);
}

proof fn lemma_counted_parts(rest: Seq<char>, at: int) -> (parts: (
    Seq<char>,
    Seq<char>,
    Seq<char>,
))
    requires
        text::rfind(rest, "-r"@) == Some(at),
        identity_with_counter(rest, at) is Some,
    ensures
        is_fork_version(parts.0),
        is_number(parts.1),
        parts.2.len() > 0,
        all_hex(parts.2),
        rest == parts.0 + "-r"@ + (parts.1 + "."@ + parts.2),
{
    reveal_strlit("-r");
    reveal_strlit(".");
    text::lemma_rfind_from(rest, "-r"@, rest.len() as int);
    let version = rest.take(at);
    let tail = rest.skip(at + 2);
    let end = digit_end(tail, 0);
    lemma_digit_end(tail, 0);
    let digits = tail.take(end);
    let suffix = tail.skip(end + 1);
    assert forall|i: int| 0 <= i < digits.len() implies '0' <= #[trigger] digits[i] <= '9' by {
        assert(text::is_digit(tail[i]));
    }
    assert(rest =~= version + "-r"@ + tail) by {
        assert(rest.subrange(at, at + 2) == "-r"@);
    }
    assert(tail =~= digits + "."@ + suffix);
    (version, digits, suffix)
}

proof fn lemma_uncounted_parts(rest: Seq<char>) -> (parts: (Seq<char>, Seq<char>))
    requires
        identity_without_counter(rest) is Some,
    ensures
        is_fork_version(parts.0),
        parts.1.len() == 12,
        all_hex(parts.1),
        rest == parts.0 + "-"@ + parts.1,
{
    reveal_strlit("-");
    text::lemma_rfind_from(rest, "-"@, rest.len() as int);
    let at = text::rfind(rest, "-"@)->0;
    let version = rest.take(at);
    let suffix = rest.skip(at + 1);
    assert(rest =~= version + "-"@ + suffix) by {
        assert(rest.subrange(at, at + 1) == "-"@);
    }
    (version, suffix)
}

/// The number `a` is less than `b`, where no number is less than any.
pub open spec fn less(a: Option<nat>, b: Option<nat>) -> bool {
    match (a, b) {
        (Some(a), Some(b)) => a < b,
        (None, Some(_)) => true,
        (_, None) => false,
    }
}

/// The release with the greater counter is newer. Of two with the same counter
/// it is the one whose counter has more digits, then the one with the greater
/// place, and then the one whose text comes last. A release is newer than what
/// is none, and what is none is newer than nothing.
pub proof fn law_newer_releases(candidate: Seq<char>, current: Seq<char>)
    ensures
        match (release_identity(candidate), release_identity(current)) {
            (None, _) => !is_newer(candidate, current),
            (Some(_), None) => is_newer(candidate, current),
            (Some(a), Some(b)) => {
                &&& less(b.normalized_counter, a.normalized_counter) ==> is_newer(candidate, current)
                &&& less(a.normalized_counter, b.normalized_counter) ==> !is_newer(
                    candidate,
                    current,
                )
                &&& a.normalized_counter == b.normalized_counter ==> {
                    &&& less(b.counter_precision, a.counter_precision) ==> is_newer(
                        candidate,
                        current,
                    )
                    &&& less(a.counter_precision, b.counter_precision) ==> !is_newer(
                        candidate,
                        current,
                    )
                    &&& a.counter_precision == b.counter_precision ==> {
                        &&& less(b.source_sequence, a.source_sequence) ==> is_newer(
                            candidate,
                            current,
                        )
                        &&& less(a.source_sequence, b.source_sequence) ==> !is_newer(
                            candidate,
                            current,
                        )
                        &&& a.source_sequence == b.source_sequence ==> is_newer(candidate, current)
                            == text::lex_before(b.tie_break, a.tie_break)
                    }
                }
            },
        },
        release_identity(candidate) is Some && candidate != current ==> is_newer(candidate, current)
            == tag_before(current, candidate),
        release_identity(candidate) is None && release_identity(current) is None ==> tag_before(
            candidate,
            current,
        ) == text::lex_before(candidate, current),
        release_identity(candidate) is Some && release_identity(current) is None ==> !tag_before(
            candidate,
            current,
        ),
{
    if let (Some(a), Some(b)) = (release_identity(candidate), release_identity(current)) {
        if candidate == current {
            assert(a == b);
            text::lemma_lex_before_irreflexive(a.tie_break);
        }
    }
}

/// The newest release of a list is one of its releases that is no draft, and no
/// other such release in the list is newer.
pub proof fn law_newest_release(entries: Seq<ForkReleaseEntry>, i: int, j: int)
    requires
        is_newest(entries, i),
        0 <= j < entries.len(),
    ensures
        0 <= i < entries.len(),
        !entries[i].draft,
        release_identity(entries[i].tag_name@) is Some,
        !entries[j].draft && release_identity(entries[j].tag_name@) is Some ==> !is_newer(
            entries[j].tag_name@,
            entries[i].tag_name@,
        ),
        is_release(entries[j]) == (!entries[j].draft && release_identity(
            entries[j].tag_name@,
        ) is Some),
{
    if is_release(entries[j]) && j > i {
        crate::fork_update::law_tags_are_ordered(
            entries[i].tag_name@,
            entries[j].tag_name@,
            entries[j].tag_name@,
        );
    }
}

/// The addresses of the project.
pub proof fn law_addresses(repo: Seq<char>)
    ensures
        install_script_url(repo) == "https://raw.githubusercontent.com/"@ + repo
            + "/eric/local-features/install.sh"@,
        crate::fork_update::DEFAULT_FORK_REPO@ == "epsalmond/codex"@,
        crate::fork_update::CODEX_SHAKE_REPO_ENV@ == "CODEX_SHAKE_REPO"@,
        crate::fork_update::FORK_RELEASE_NOTES_URL@
            == "https://github.com/epsalmond/codex/releases"@,
        crate::fork_update::FORK_INSTALL_COMMAND@ == "curl -fsSL "@ + install_script_url(
            "epsalmond/codex"@,
        ) + " | bash"@,
{
    reveal_strlit(
        "curl -fsSL https://raw.githubusercontent.com/epsalmond/codex/eric/local-features/install.sh | bash",
    );
    reveal_strlit("curl -fsSL ");
    reveal_strlit("https://raw.githubusercontent.com/");
    reveal_strlit("epsalmond/codex");
    reveal_strlit("/eric/local-features/install.sh");
    reveal_strlit(" | bash");
    assert(crate::fork_update::FORK_INSTALL_COMMAND@ =~= "curl -fsSL "@ + install_script_url(
        "epsalmond/codex"@,
    ) + " | bash"@);
}

} // verus!
