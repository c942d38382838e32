//! Where removed text is kept: per-thread artifact files.
//!
//! The rules for names, sizes and copies stand here; reading and writing the
//! files is left to the program around the library.

use vstd::prelude::*;
use vstd::string::*;

use crate::text;

verus! {

/// The largest text that one artifact may hold. A region beyond it is not
/// saved, so a shake leaves it in place.
pub const MAX_ARTIFACT_BYTES: u64 = 8_388_608;

/// The longest sanitized label.
pub const MAX_LABEL_CHARS: usize = 64;

/// A letter or digit of ASCII.
pub open spec fn is_ascii_alphanumeric(c: char) -> bool {
    'a' <= c <= 'z' || 'A' <= c <= 'Z' || '0' <= c <= '9'
}

/// A character that a file name takes as it is.
pub open spec fn is_label_char(c: char) -> bool {
    is_ascii_alphanumeric(c) || c == '_' || c == '-'
}

/// A label so far, with one more character: one that a file name does not take
/// becomes an underscore, and a run of them becomes one underscore.
pub open spec fn label_step(label: Seq<char>, c: char) -> Seq<char> {
    if label.len() >= MAX_LABEL_CHARS {
        label
    } else if is_label_char(c) {
        label.push(c)
    } else if label.len() > 0 && label.last() == '_' {
        label
    } else {
        label.push('_')
    }
}

/// The label that the characters of `s` make.
pub open spec fn label_of(s: Seq<char>) -> Seq<char>
    decreases s.len(),
{
    if s.len() == 0 {
        Seq::empty()
    } else {
        label_step(label_of(s.drop_last()), s.last())
    }
}

/// A text without leading underscores.
pub open spec fn strip_leading(s: Seq<char>) -> Seq<char>
    decreases s.len(),
{
    if s.len() > 0 && s[0] == '_' {
        strip_leading(s.drop_first())
    } else {
        s
    }
}

/// A text without trailing underscores.
pub open spec fn strip_trailing(s: Seq<char>) -> Seq<char>
    decreases s.len(),
{
    if s.len() > 0 && s.last() == '_' {
        strip_trailing(s.drop_last())
    } else {
        s
    }
}

/// The form of a label that stands in a file name.
pub open spec fn sanitized(label: Seq<char>) -> Seq<char> {
    let bare = strip_trailing(strip_leading(label_of(label)));
    if bare.len() == 0 {
        "artifact"@
    } else {
        bare
    }
}

/// A path inside a directory. An absolute name replaces the directory.
pub open spec fn path_join(dir: Seq<char>, name: Seq<char>) -> Seq<char> {
    if dir.len() == 0 || (name.len() > 0 && name[0] == '/') {
        name
    } else if dir.last() == '/' {
        dir + name
    } else {
        dir + "/"@ + name
    }
}

/// The name of the file of an artifact.
pub open spec fn artifact_file(id: Seq<char>, label: Seq<char>) -> Seq<char> {
    id + "."@ + sanitized(label) + ".log"@
}

/// Computes [`path_join`].
pub fn join_path(dir: &str, name: &str) -> (path: String)
    ensures
        path@ == path_join(dir@, name@),
{
    let dir_chars = text::chars_of(dir);
    let name_chars = text::chars_of(name);
    if dir_chars.len() == 0 || (name_chars.len() > 0 && name_chars[0] == '/') {
        return name.to_owned();
    }
    let mut path = dir.to_owned();
    if dir_chars[dir_chars.len() - 1] != '/' {
        path.append("/");
    }
    path.append(name);
    path
}

/// The form of a label that stands in a file name.
pub fn sanitize_label(label: &str) -> (r: String)
    ensures
        r@ == sanitized(label@),
{
    let chars = text::chars_of(label);
    let mut out: Vec<char> = Vec::new();
    let mut i: usize = 0;
    while i < chars.len()
        invariant
            i <= chars@.len(),
            out@ == label_of(chars@.take(i as int)),
            out@.len() <= MAX_LABEL_CHARS,
        decreases chars@.len() - i,
    {
        let c = chars[i];
        assert(chars@.take(i + 1).drop_last() == chars@.take(i as int));
        if out.len() < MAX_LABEL_CHARS {
            let plain: bool = ('a' <= c && c <= 'z') || ('A' <= c && c <= 'Z') || ('0' <= c && c
                <= '9') || c == '_' || c == '-';
            if plain {
                out.push(c);
            } else if out.len() == 0 || out[out.len() - 1] != '_' {
                out.push('_');
            }
        }
        i = i + 1;
    }
    assert(chars@.take(i as int) == chars@);
    let mut start: usize = 0;
    assert(out@.skip(0) == out@);
    while start < out.len() && out[start] == '_'
        invariant
            start <= out@.len(),
            strip_leading(out@) == strip_leading(out@.skip(start as int)),
        decreases out@.len() - start,
    {
        assert(out@.skip(start as int).drop_first() == out@.skip(start + 1));
        start = start + 1;
    }
    let ghost led = out@.skip(start as int);
    let mut end: usize = out.len();
    assert(out@.subrange(start as int, end as int) == led);
    while end > start && out[end - 1] == '_'
        invariant
            start <= end <= out@.len(),
            strip_trailing(led) == strip_trailing(out@.subrange(start as int, end as int)),
        decreases end,
    {
        assert(out@.subrange(start as int, end as int).drop_last() == out@.subrange(
            start as int,
            end - 1,
        ));
        end = end - 1;
    }
    let bare = vstd::slice::slice_subrange(out.as_slice(), start, end);
    if bare.len() == 0 {
        "artifact".to_owned()
    } else {
        text::string_of(bare)
    }
}

proof fn lemma_label_chars(s: Seq<char>)
    ensures
        label_of(s).len() <= MAX_LABEL_CHARS,
        forall|i: int| 0 <= i < label_of(s).len() ==> is_label_char(#[trigger] label_of(s)[i]),
    decreases s.len(),
{
    if s.len() > 0 {
        lemma_label_chars(s.drop_last());
    }
}

proof fn lemma_strip_leading(s: Seq<char>)
    ensures
        strip_leading(s).len() <= s.len(),
        strip_leading(s) == s.skip(s.len() - strip_leading(s).len()),
        strip_leading(s).len() > 0 ==> strip_leading(s)[0] != '_',
    decreases s.len(),
{
    if s.len() > 0 && s[0] == '_' {
        lemma_strip_leading(s.drop_first());
        assert(s.drop_first().skip(s.drop_first().len() - strip_leading(s).len()) == s.skip(
            s.len() - strip_leading(s).len(),
        ));
    } else {
        assert(s.skip(0) == s);
    }
}

proof fn lemma_strip_trailing(s: Seq<char>)
    ensures
        strip_trailing(s).len() <= s.len(),
        strip_trailing(s) == s.take(strip_trailing(s).len() as int),
        strip_trailing(s).len() > 0 ==> strip_trailing(s).last() != '_',
    decreases s.len(),
{
    if s.len() > 0 && s.last() == '_' {
        lemma_strip_trailing(s.drop_last());
        assert(s.drop_last().take(strip_trailing(s).len() as int) == s.take(
            strip_trailing(s).len() as int,
        ));
    } else {
        assert(s.take(s.len() as int) == s);
    }
}

/// Nothing of a label stands in a file name but underscores.
pub open spec fn says_nothing(label: Seq<char>) -> bool {
    forall|i: int|
        0 <= i < label.len() ==> !is_ascii_alphanumeric(#[trigger] label[i]) && label[i] != '-'
}

proof fn lemma_label_of_nothing(s: Seq<char>)
    requires
        says_nothing(s),
    ensures
        forall|i: int| 0 <= i < label_of(s).len() ==> #[trigger] label_of(s)[i] == '_',
    decreases s.len(),
{
    if s.len() > 0 {
        assert forall|i: int| 0 <= i < s.drop_last().len() implies !is_ascii_alphanumeric(
            #[trigger] s.drop_last()[i],
        ) && s.drop_last()[i] != '-' by {
            assert(s.drop_last()[i] == s[i]);
        }
        lemma_label_of_nothing(s.drop_last());
        let front = label_of(s.drop_last());
        assert(!is_ascii_alphanumeric(s[s.len() - 1]) && s[s.len() - 1] != '-');
        assert forall|i: int| 0 <= i < label_of(s).len() implies #[trigger] label_of(s)[i]
            == '_' by {
            if i < front.len() {
                assert(front[i] == '_');
            }
        }
    }
}

proof fn lemma_strip_underscores(s: Seq<char>)
    requires
        forall|i: int| 0 <= i < s.len() ==> #[trigger] s[i] == '_',
    ensures
        strip_leading(s).len() == 0,
    decreases s.len(),
{
    if s.len() > 0 {
        assert(s[0] == '_');
        assert forall|i: int| 0 <= i < s.drop_first().len() implies #[trigger] s.drop_first()[i]
            == '_' by {
            assert(s.drop_first()[i] == s[i + 1]);
        }
        lemma_strip_underscores(s.drop_first());
    }
}

/// A sanitized label is never empty, is bounded, and has no character that
/// means something in a path: whatever a label says, the artifact stays a file
/// of its own directory. It has no underscore at either end, and a label
/// without letter, digit or hyphen becomes `artifact`.
pub proof fn law_labels_are_safe(label: Seq<char>)
    ensures
        0 < sanitized(label).len() <= MAX_LABEL_CHARS,
        forall|i: int| 0 <= i < sanitized(label).len() ==> is_label_char(
            #[trigger] sanitized(label)[i],
        ),
        sanitized(label)[0] != '_',
        sanitized(label).last() != '_',
        says_nothing(label) ==> sanitized(label) == "artifact"@,
{
    reveal_strlit("artifact");
    let all = label_of(label);
    lemma_label_chars(label);
    lemma_strip_leading(all);
    let led = strip_leading(all);
    lemma_strip_trailing(led);
    let bare = strip_trailing(led);
    assert forall|i: int| 0 <= i < bare.len() implies is_label_char(#[trigger] bare[i]) by {
        assert(bare[i] == led[i]);
        assert(led[i] == all[all.len() - led.len() + i]);
    }
    if bare.len() > 0 {
        assert(bare[0] == led[0]);
    }
    if says_nothing(label) {
        lemma_label_of_nothing(label);
        lemma_strip_underscores(all);
    }
}

/// A lower-case hexadecimal digit.
pub open spec fn is_hex_digit(c: char) -> bool {
    '0' <= c <= '9' || 'a' <= c <= 'f'
}

/// An artifact id: 32 hexadecimal digits.
pub open spec fn is_artifact_id(id: Seq<char>) -> bool {
    id.len() == 32 && forall|i: int| 0 <= i < id.len() ==> is_hex_digit(#[trigger] id[i])
}

/// `uuid::Uuid::new_v4` draws a random UUID, and `simple` writes it as 32
/// lower-case hexadecimal digits. Which digits come is left to chance. The call
/// panics only where the system has no source of random numbers.
#[verifier::external_body]
fn random_artifact_id() -> (id: String)
    ensures
        is_artifact_id(id@),
{
    uuid::Uuid::new_v4().simple().to_string()
}

/// What it takes to save one artifact.
#[derive(Debug, PartialEq, Eq)]
pub struct SavePlan {
    /// The id of the artifact.
    pub id: String,
    /// The file to write first.
    pub temporary: String,
    /// The file that the written one is renamed to.
    pub destination: String,
    /// The name under which the artifact is known.
    pub uri: String,
}

/// The artifacts of one thread.
#[derive(Debug, PartialEq, Eq)]
pub struct ArtifactStore {
    /// The directory of the artifacts.
    pub root: String,
}

/// The directory of a thread's artifacts.
pub open spec fn thread_root(home: Seq<char>, thread_id: Seq<char>) -> Seq<char> {
    path_join(path_join(home, "artifacts"@), thread_id)
}

/// What saving under `id` writes and renames.
pub open spec fn is_save_plan(
    plan: SavePlan,
    root: Seq<char>,
    id: Seq<char>,
    label: Seq<char>,
) -> bool {
    &&& plan.id@ == id
    &&& plan.temporary@ == path_join(root, ".tmp-"@ + id + ".log"@)
    &&& plan.destination@ == path_join(root, artifact_file(id, label))
    &&& plan.uri@ == "artifact://"@ + id
}

/// Why an artifact is not saved.
pub open spec fn too_large_text() -> Seq<char> {
    "artifact is larger than "@ + text::decimal(MAX_ARTIFACT_BYTES as nat) + " bytes"@
}

/// What to do with one entry of a directory that is copied.
#[derive(Debug, PartialEq, Eq)]
pub enum CopyAction {
    /// The entry is no finished artifact.
    Skip,
    /// The entry exists at the destination already; the message says so.
    Conflict(String),
    /// The entry is copied to `temporary`, which is then renamed.
    Copy { temporary: String, destination: String },
}

/// The name of a copy under way: 36 characters, five groups of hexadecimal
/// digits with hyphens between them.
pub open spec fn is_copy_id(id: Seq<char>) -> bool {
    &&& id.len() == 36
    &&& forall|i: int|
        0 <= i < 36 ==> if i == 8 || i == 13 || i == 18 || i == 23 {
            #[trigger] id[i] == '-'
        } else {
            is_hex_digit(id[i])
        }
}

/// `uuid::Uuid::new_v4` draws a random UUID, and its display form is 36
/// characters: five groups of lower-case hexadecimal digits, with hyphens
/// between them. Which digits come is left to chance. The call panics only where
/// the system has no source of random numbers.
#[verifier::external_body]
fn random_copy_id() -> (id: String)
    ensures
        is_copy_id(id@),
{
    uuid::Uuid::new_v4().to_string()
}

impl ArtifactStore {
    /// The artifacts of a thread under a home directory. `resolved_home` is the
    /// absolute form of the home directory, where it could be resolved.
    pub fn for_thread(codex_home: &str, resolved_home: Option<&str>, thread_id: &str) -> (store:
        Self)
        ensures
            store.root@ == thread_root(
                match resolved_home {
                    Some(home) => home@,
                    None => codex_home@,
                },
                thread_id@,
            ),
    {
        let home: &str = match resolved_home {
            Some(home) => home,
            None => codex_home,
        };
        let artifacts = join_path(home, "artifacts");
        ArtifactStore { root: join_path(artifacts.as_str(), thread_id) }
    }

    /// The file of an artifact, whether it is there or not.
    pub fn destination_path(&self, id: &str, label: &str) -> (path: String)
        ensures
            path@ == path_join(self.root@, artifact_file(id@, label@)),
    {
        let mut name = id.to_owned();
        name.append(".");
        name.append(sanitize_label(label).as_str());
        name.append(".log");
        join_path(self.root.as_str(), name.as_str())
    }

    /// What it takes to save `content` under the id `id`: an error for a text
    /// that is too large, and otherwise the files to write.
    pub fn plan_save_as(&self, content: &str, label: &str, id: String) -> (plan: Result<
        SavePlan,
        String,
    >)
        ensures
            match plan {
                Err(message) => text::byte_len(content@) > MAX_ARTIFACT_BYTES && message@
                    == too_large_text(),
                Ok(plan) => text::byte_len(content@) <= MAX_ARTIFACT_BYTES && is_save_plan(
                    plan,
                    self.root@,
                    id@,
                    label@,
                ),
            },
    {
        if text::text_bytes(content) as u64 > MAX_ARTIFACT_BYTES {
            let mut message = "artifact is larger than ".to_owned();
            message.append(text::decimal_text(MAX_ARTIFACT_BYTES).as_str());
            message.append(" bytes");
            return Err(message);
        }
        let mut temporary_name = ".tmp-".to_owned();
        temporary_name.append(id.as_str());
        temporary_name.append(".log");
        let mut uri = "artifact://".to_owned();
        uri.append(id.as_str());
        let temporary = join_path(self.root.as_str(), temporary_name.as_str());
        let destination = self.destination_path(id.as_str(), label);
        Ok(SavePlan { id, temporary, destination, uri })
    }

    /// What it takes to save `content` under a fresh id.
    pub fn plan_save(&self, content: &str, label: &str) -> (plan: Result<SavePlan, String>)
        ensures
            match plan {
                Err(message) => text::byte_len(content@) > MAX_ARTIFACT_BYTES && message@
                    == too_large_text(),
                Ok(plan) => text::byte_len(content@) <= MAX_ARTIFACT_BYTES && is_artifact_id(
                    plan.id@,
                ) && is_save_plan(plan, self.root@, plan.id@, label@),
            },
    {
        self.plan_save_as(content, label, random_artifact_id())
    }

    /// What to do with one entry of a source directory: links, directories and
    /// unfinished files are skipped, and nothing is overwritten. `copy_id` makes
    /// the name of the temporary file.
    pub fn copy_action_as(
        &self,
        is_symlink: bool,
        is_file: bool,
        name: &str,
        destination_exists: bool,
        copy_id: &str,
    ) -> (action: CopyAction)
        ensures
            (action is Skip) == (is_symlink || !is_file || text::starts_with(name@, ".tmp-"@)),
            (action is Conflict) == (!(action is Skip) && destination_exists),
            action matches CopyAction::Conflict(message) ==> message@
                == "artifact destination already exists: "@ + path_join(self.root@, name@),
            action matches CopyAction::Copy { temporary, destination } ==> temporary@ == path_join(
                self.root@,
                ".tmp-copy-"@ + copy_id@,
            ) && destination@ == path_join(self.root@, name@),
    {
        let chars = text::chars_of(name);
        if is_symlink || !is_file || text::has_prefix(chars.as_slice(), ".tmp-") {
            return CopyAction::Skip;
        }
        let destination = join_path(self.root.as_str(), name);
        if destination_exists {
            let mut message = "artifact destination already exists: ".to_owned();
            message.append(destination.as_str());
            return CopyAction::Conflict(message);
        }
        let mut temporary_name = ".tmp-copy-".to_owned();
        temporary_name.append(copy_id);
        CopyAction::Copy {
            temporary: join_path(self.root.as_str(), temporary_name.as_str()),
            destination,
        }
    }

    /// [`ArtifactStore::copy_action_as`] with a fresh name for the temporary
    /// file.
    pub fn copy_action(
        &self,
        is_symlink: bool,
        is_file: bool,
        name: &str,
        destination_exists: bool,
    ) -> (action: CopyAction)
        ensures
            (action is Skip) == (is_symlink || !is_file || text::starts_with(name@, ".tmp-"@)),
            (action is Conflict) == (!(action is Skip) && destination_exists),
            action matches CopyAction::Conflict(message) ==> message@
                == "artifact destination already exists: "@ + path_join(self.root@, name@),
            action matches CopyAction::Copy { temporary, destination } ==> (exists|id: Seq<char>|
                #[trigger] is_copy_id(id) && temporary@ == path_join(
                    self.root@,
                    ".tmp-copy-"@ + id,
                )) && destination@ == path_join(self.root@, name@),
    {
        let id = random_copy_id();
        let action = self.copy_action_as(
            is_symlink,
            is_file,
            name,
            destination_exists,
            id.as_str(),
        );
        assert(action matches CopyAction::Copy { temporary, .. } ==> temporary@ == path_join(
            self.root@,
            ".tmp-copy-"@ + id@,
        ));
        action
    }
}

/// The id inside the name of an artifact.
pub fn artifact_id_of(uri: &str) -> (id: Option<String>)
    ensures
        match id {
            Some(id) => uri@ == "artifact://"@ + id@,
            None => !text::starts_with(uri@, "artifact://"@),
        },
{
    let chars = text::chars_of(uri);
    if !text::has_prefix(chars.as_slice(), "artifact://") {
        return None;
    }
    proof {
        reveal_strlit("artifact://");
    }
    let id = text::string_of(
        vstd::slice::slice_subrange(chars.as_slice(), 11, chars.len()),
    );
    assert(uri@.subrange(0, 11) == "artifact://"@);
    assert(uri@ == "artifact://"@ + id@);
    Some(id)
}

/// A saved artifact has the size of the text that was to be saved.
pub fn is_complete(content: &str, written: u64) -> (r: bool)
    ensures
        r == (written == text::byte_len(content@)),
{
    written == text::text_bytes(content) as u64
}

/// A name goes into its directory behind one slash, whether or not the directory
/// ends in one. A name that begins with a slash, and one without a directory,
/// stays as it is.
pub proof fn law_names_go_into_their_directory(dir: Seq<char>, name: Seq<char>)
    requires
        name.len() > 0,
        name[0] != '/',
    ensures
        path_join(dir.push('/'), name) == dir + seq!['/'] + name,
        dir.len() > 0 && dir.last() != '/' ==> path_join(dir, name) == dir + seq!['/'] + name,
        path_join(Seq::empty(), name) == name,
        path_join(dir, seq!['/'] + name) == seq!['/'] + name,
{
    reveal_strlit("/");
    assert("/"@ =~= seq!['/']);
    assert(dir.push('/') =~= dir + seq!['/']);
}

proof fn lemma_plain_label(s: Seq<char>)
    requires
        s.len() <= 64,
        forall|i: int| 0 <= i < s.len() ==> is_label_char(#[trigger] s[i]),
    ensures
        label_of(s) == s,
    decreases s.len(),
{
    if s.len() > 0 {
        let front = s.drop_last();
        assert forall|i: int| 0 <= i < front.len() implies is_label_char(#[trigger] front[i]) by {
            assert(front[i] == s[i]);
        }
        lemma_plain_label(front);
        assert(is_label_char(s[s.len() - 1]));
        assert(front.push(s.last()) =~= s);
    }
}

/// The characters that a file name takes: letters, digits, underscores and
/// hyphens.
pub open spec fn is_plain(s: Seq<char>) -> bool {
    forall|i: int|
        0 <= i < s.len() ==> 'a' <= #[trigger] s[i] <= 'z' || 'A' <= s[i] <= 'Z' || '0' <= s[i]
            <= '9' || s[i] == '_' || s[i] == '-'
}

/// A label that a file name takes as it is stays as it is. Between two such
/// labels any other characters, however many, become one underscore.
pub proof fn law_plain_labels_stay(label: Seq<char>, odd: Seq<char>, rest: Seq<char>)
    requires
        0 < label.len(),
        0 < rest.len(),
        label.len() + 1 + rest.len() <= 64,
        is_plain(label),
        is_plain(rest),
        label[0] != '_',
        label.last() != '_',
        rest[0] != '_',
        rest.last() != '_',
        odd.len() > 0,
        forall|i: int| 0 <= i < odd.len() ==> !is_plain(seq![#[trigger] odd[i]]),
    ensures
        sanitized(label) == label,
        sanitized(label + odd + rest) == label + seq!['_'] + rest,
{
    assert forall|i: int| 0 <= i < label.len() implies is_label_char(#[trigger] label[i]) by {}
    lemma_plain_label(label);
    lemma_bare_label(label);
    lemma_odd_run(label, odd);
    lemma_plain_behind(label + odd, label + seq!['_'], rest);
    let made = label + seq!['_'] + rest;
    assert(made[0] == label[0]);
    assert(made.last() == rest.last());
    lemma_bare_label(made);
}

proof fn lemma_bare_label(s: Seq<char>)
    requires
        s.len() > 0,
        s[0] != '_',
        s.last() != '_',
    ensures
        strip_trailing(strip_leading(s)) == s,
{
}

proof fn lemma_odd_run(label: Seq<char>, odd: Seq<char>)
    requires
        label.len() < 64,
        label_of(label) == label,
        label.len() > 0,
        label.last() != '_',
        forall|i: int| 0 <= i < odd.len() ==> !is_plain(seq![#[trigger] odd[i]]),
    ensures
        odd.len() > 0 ==> label_of(label + odd) == label + seq!['_'],
    decreases odd.len(),
{
    if odd.len() > 0 {
        let front = odd.drop_last();
        let s = label + odd;
        assert(s.drop_last() =~= label + front);
        assert(!is_plain(seq![odd[odd.len() - 1]]));
        assert(!is_label_char(s.last())) by {
            let c = odd[odd.len() - 1];
            if is_label_char(c) {
                assert(seq![c][0] == c);
                assert(is_plain(seq![c]));
            }
        }
        if front.len() > 0 {
            assert forall|i: int| 0 <= i < front.len() implies !is_plain(
                seq![#[trigger] front[i]],
            ) by {
                assert(front[i] == odd[i]);
            }
            lemma_odd_run(label, front);
        } else {
            assert(label + front =~= label);
            assert(label.push('_') =~= label + seq!['_']);
        }
    }
}

proof fn lemma_plain_behind(s: Seq<char>, made: Seq<char>, rest: Seq<char>)
    requires
        label_of(s) == made,
        made.len() + rest.len() <= 64,
        is_plain(rest),
    ensures
        label_of(s + rest) == made + rest,
    decreases rest.len(),
{
    if rest.len() > 0 {
        let front = rest.drop_last();
        assert forall|i: int| 0 <= i < front.len() implies 'a' <= #[trigger] front[i] <= 'z' || 'A'
            <= front[i] <= 'Z' || '0' <= front[i] <= '9' || front[i] == '_' || front[i] == '-' by {
            assert(front[i] == rest[i]);
        }
        lemma_plain_behind(s, made, front);
        assert((s + rest).drop_last() =~= s + front);
        let c = rest[rest.len() - 1];
        assert(is_label_char(c));
        assert((made + front).push(c) =~= made + rest);
    } else {
        assert(s + rest =~= s);
        assert(made + rest =~= made);
    }
}

/// The file of an artifact begins with its id, so that two artifacts never share
/// one, and the label behind it leads out of no directory.
pub proof fn law_files_are_named_by_their_id(id: Seq<char>, label: Seq<char>)
    requires
        is_artifact_id(id),
    ensures
        artifact_file(id, label) == id + seq!['.'] + sanitized(label) + seq!['.', 'l', 'o', 'g'],
        artifact_file(id, label).take(32) == id,
        !artifact_file(id, label).contains('/'),
{
    reveal_strlit(".");
    reveal_strlit(".log");
    assert("."@ =~= seq!['.']);
    assert(".log"@ =~= seq!['.', 'l', 'o', 'g']);
    law_labels_are_safe(label);
    let file = artifact_file(id, label);
    assert(file.take(32) =~= id);
    let safe = sanitized(label);
    if file.contains('/') {
        let i = choose|i: int| 0 <= i < file.len() && file[i] == '/';
        if i < 32 {
            assert(is_hex_digit(id[i]));
        } else if 33 <= i < 33 + safe.len() {
            assert(is_label_char(safe[i - 33]));
        }
    }
}

/// The artifacts of a thread stand in a directory of their own, below the one of
/// all artifacts.
pub proof fn law_threads_have_their_own_directory(home: Seq<char>, thread: Seq<char>)
    requires
        home.len() > 0,
        home.last() != '/',
        thread.len() > 0,
        thread[0] != '/',
    ensures
        thread_root(home, thread) == home + "/artifacts/"@ + thread,
{
    reveal_strlit("/");
    reveal_strlit("artifacts");
    reveal_strlit("/artifacts/");
    assert("/artifacts/"@ =~= "/"@ + "artifacts"@ + "/"@);
    law_names_go_into_their_directory(home, "artifacts"@);
    let all = path_join(home, "artifacts"@);
    assert(all.last() == 's');
    law_names_go_into_their_directory(all, thread);
    assert(thread_root(home, thread) =~= home + "/artifacts/"@ + thread);
}

} // verus!
