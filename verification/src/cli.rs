//! The probe's command line: where its executable is looked for, what it is
//! called with, and what is made of its output.

use crate::text::{
    append_digits, blank, clipped, decimal, decimal_digits, decimal_text, is_blank, same_text,
    text_of, trim, trim_for_log, trimmed,
};
use crate::vecs::reversed;
use vstd::hash_set::StringHashSet;
use vstd::prelude::*;
use vstd::string::*;

verus! {

/// What `str::to_lowercase` makes of `text`.
pub uninterp spec fn lowercase(text: Seq<char>) -> Seq<char>;

/// Calls `str::to_lowercase`: the text with every character in lower case,
/// as Unicode defines it, a function of the text alone.
#[verifier::external_body]
pub(crate) fn to_lowercase(text: &str) -> (lower: String)
    ensures
        lower@ == lowercase(text@),
{
    text.to_lowercase()
}

/// Some path among `paths` has the lower-case form `key`.
pub open spec fn key_seen(paths: Seq<String>, key: Seq<char>) -> bool {
    exists|i: int| 0 <= i < paths.len() && lowercase((#[trigger] paths[i])@) == key
}

/// `paths` without those that repeat an earlier one, case aside: of paths
/// with one lower-case form the first stays.
pub open spec fn distinct_candidates(paths: Seq<String>) -> Seq<String>
    decreases paths.len(),
{
    if paths.len() == 0 {
        Seq::empty()
    } else {
        let front = paths.drop_last();
        if key_seen(front, lowercase(paths.last()@)) {
            distinct_candidates(front)
        } else {
            distinct_candidates(front).push(paths.last())
        }
    }
}

/// Puts `path` at the end of `list` unless `seen` holds its lower-case
/// form, which it holds afterwards in any case.
pub fn add_candidate(list: &mut Vec<String>, seen: &mut StringHashSet, path: String)
    ensures
        final(seen)@ == old(seen)@.insert(lowercase(path@)),
        old(seen)@.contains(lowercase(path@)) ==> final(list)@ == old(list)@,
        !old(seen)@.contains(lowercase(path@)) ==> final(list)@ == old(list)@.push(path),
{
    let key = to_lowercase(path.as_str());
    if seen.insert(key) {
        list.push(path);
    }
}

/// The candidate paths in the order given, each lower-case form once.
pub fn codex_cli_candidates(paths: Vec<String>) -> (candidates: Vec<String>)
    ensures
        candidates@ == distinct_candidates(paths@),
{
    let ghost orig = paths@;
    let mut pending = reversed(paths);
    let mut candidates: Vec<String> = Vec::new();
    let mut seen = StringHashSet::new();
    assert(orig.take(0) =~= Seq::empty());
    while pending.len() > 0
        invariant
            pending.len() <= orig.len(),
            pending@ == orig.reverse().take(pending.len() as int),
            candidates@ == distinct_candidates(orig.take(orig.len() - pending.len())),
            forall|key: Seq<char>|
                seen@.contains(key) <==> key_seen(orig.take(orig.len() - pending.len()), key),
        decreases pending.len(),
    {
        let ghost k = orig.len() - pending.len();
        let ghost before = seen@;
        let path = pending.pop().unwrap();
        assert(path == orig[k]);
        assert(pending@ =~= orig.reverse().take(pending.len() as int));
        add_candidate(&mut candidates, &mut seen, path);
        proof {
            let done = orig.take(k + 1);
            assert(done.drop_last() =~= orig.take(k));
            assert(done.last() == path);
            assert forall|key: Seq<char>| seen@.contains(key) <==> key_seen(done, key) by {
                if key_seen(done, key) {
                    let i = choose|i: int|
                        0 <= i < done.len() && lowercase((#[trigger] done[i])@) == key;
                    if i < k {
                        assert(orig.take(k)[i] == done[i]);
                        assert(key_seen(orig.take(k), key));
                    }
                }
                if seen@.contains(key) {
                    if key == lowercase(path@) {
                        assert(lowercase(done[k]@) == key);
                    } else {
                        assert(before.contains(key));
                        let i = choose|i: int|
                            0 <= i < orig.take(k).len() && lowercase((#[trigger] orig.take(k)[i])@)
                                == key;
                        assert(done[i] == orig.take(k)[i]);
                    }
                }
            }
        }
    }
    assert(orig.take(orig.len() as int) =~= orig);
    candidates
}

/// What the search for the executable reads of its surroundings: whether
/// the platform is Windows, the override path, the two application data
/// directories of Windows, and the directories of the search path in order.
#[derive(Debug, Clone, PartialEq, Eq)]
pub struct CliSearchEnv {
    pub windows: bool,
    pub custom_path: Option<String>,
    pub appdata: Option<String>,
    pub local_appdata: Option<String>,
    pub path_dirs: Vec<String>,
}

/// A place to look for the executable: a path, and the names that lead
/// from it to the file, outermost first.
#[derive(Debug, Clone, PartialEq, Eq)]
pub struct CliCandidate {
    pub base: String,
    pub parts: Vec<String>,
}

/// The views of a list of texts.
pub open spec fn texts_of(list: Seq<String>) -> Seq<Seq<char>> {
    list.map_values(|text: String| text@)
}

/// A candidate as texts.
pub open spec fn candidate_text(candidate: CliCandidate) -> (Seq<char>, Seq<Seq<char>>) {
    (candidate.base@, texts_of(candidate.parts@))
}

/// A plan as texts.
pub open spec fn plan_texts(plan: Seq<CliCandidate>) -> Seq<(Seq<char>, Seq<Seq<char>>)> {
    plan.map_values(|candidate: CliCandidate| candidate_text(candidate))
}

/// The override comes first: trimmed, and only where it is not blank.
pub open spec fn custom_candidates(custom: Option<Seq<char>>) -> Seq<(Seq<char>, Seq<Seq<char>>)> {
    if custom is Some && !is_blank(custom->Some_0) {
        seq![(trimmed(custom->Some_0), Seq::<Seq<char>>::empty())]
    } else {
        Seq::empty()
    }
}

/// On Windows the package manager's directory under the application data
/// comes next, with each name the executable may have.
pub open spec fn appdata_candidates(windows: bool, appdata: Option<Seq<char>>) -> Seq<
    (Seq<char>, Seq<Seq<char>>),
> {
    if windows && appdata is Some {
        let base = appdata->Some_0;
        seq![
            (base, seq!["npm"@, "codex.cmd"@]),
            (base, seq!["npm"@, "codex.bat"@]),
            (base, seq!["npm"@, "codex.exe"@]),
            (base, seq!["npm"@, "codex"@]),
        ]
    } else {
        Seq::empty()
    }
}

/// On Windows the two install directories under the local application
/// data follow.
pub open spec fn local_appdata_candidates(windows: bool, local: Option<Seq<char>>) -> Seq<
    (Seq<char>, Seq<Seq<char>>),
> {
    if windows && local is Some {
        let base = local->Some_0;
        seq![
            (base, seq!["Programs"@, "Codex"@, "codex.exe"@]),
            (base, seq!["Programs"@, "codex"@, "codex.exe"@]),
        ]
    } else {
        Seq::empty()
    }
}

/// In a directory of the search path the executable may have four names on
/// Windows and one elsewhere.
pub open spec fn dir_candidates(windows: bool, dir: Seq<char>) -> Seq<(Seq<char>, Seq<Seq<char>>)> {
    if windows {
        seq![
            (dir, seq!["codex.cmd"@]),
            (dir, seq!["codex.bat"@]),
            (dir, seq!["codex.exe"@]),
            (dir, seq!["codex"@]),
        ]
    } else {
        seq![(dir, seq!["codex"@])]
    }
}

/// The candidates of the search path, directory by directory.
pub open spec fn path_candidates(windows: bool, dirs: Seq<String>) -> Seq<
    (Seq<char>, Seq<Seq<char>>),
>
    decreases dirs.len(),
{
    if dirs.len() == 0 {
        Seq::empty()
    } else {
        path_candidates(windows, dirs.drop_last()) + dir_candidates(windows, dirs.last()@)
    }
}

/// Every place to look, in the order of the search: the override, the
/// well-known directories of the platform, the search path.
pub open spec fn search_plan(env: CliSearchEnv) -> Seq<(Seq<char>, Seq<Seq<char>>)> {
    custom_candidates(text_of(env.custom_path)) + appdata_candidates(
        env.windows,
        text_of(env.appdata),
    ) + local_appdata_candidates(env.windows, text_of(env.local_appdata)) + path_candidates(
        env.windows,
        env.path_dirs@,
    )
}

fn push_candidate(plan: &mut Vec<CliCandidate>, base: &str, parts: Vec<String>)
    ensures
        plan_texts(final(plan)@) == plan_texts(old(plan)@).push((base@, texts_of(parts@))),
{
    let candidate = CliCandidate { base: base.to_string(), parts };
    plan.push(candidate);
    assert(plan_texts(final(plan)@) =~= plan_texts(old(plan)@).push(candidate_text(candidate)));
}

fn push_named(plan: &mut Vec<CliCandidate>, base: &str, name: &str)
    ensures
        plan_texts(final(plan)@) == plan_texts(old(plan)@).push((base@, seq![name@])),
{
    let mut parts: Vec<String> = Vec::new();
    parts.push(name.to_string());
    assert(texts_of(parts@) =~= seq![name@]);
    push_candidate(plan, base, parts);
}

fn push_nested(plan: &mut Vec<CliCandidate>, base: &str, outer: &str, name: &str)
    ensures
        plan_texts(final(plan)@) == plan_texts(old(plan)@).push((base@, seq![outer@, name@])),
{
    let mut parts: Vec<String> = Vec::new();
    parts.push(outer.to_string());
    parts.push(name.to_string());
    assert(texts_of(parts@) =~= seq![outer@, name@]);
    push_candidate(plan, base, parts);
}

fn push_installed(plan: &mut Vec<CliCandidate>, base: &str, folder: &str)
    ensures
        plan_texts(final(plan)@) == plan_texts(old(plan)@).push(
            (base@, seq!["Programs"@, folder@, "codex.exe"@]),
        ),
{
    let mut parts: Vec<String> = Vec::new();
    parts.push("Programs".to_string());
    parts.push(folder.to_string());
    parts.push("codex.exe".to_string());
    assert(texts_of(parts@) =~= seq!["Programs"@, folder@, "codex.exe"@]);
    push_candidate(plan, base, parts);
}

fn push_dir(plan: &mut Vec<CliCandidate>, windows: bool, dir: &str)
    ensures
        plan_texts(final(plan)@) == plan_texts(old(plan)@) + dir_candidates(windows, dir@),
{
    if windows {
        push_named(plan, dir, "codex.cmd");
        push_named(plan, dir, "codex.bat");
        push_named(plan, dir, "codex.exe");
    }
    push_named(plan, dir, "codex");
    assert(plan_texts(final(plan)@) =~= plan_texts(old(plan)@) + dir_candidates(windows, dir@));
}

/// Lists every place to look for the executable, in the order of the
/// search.
pub fn cli_search_plan(env: &CliSearchEnv) -> (plan: Vec<CliCandidate>)
    ensures
        plan_texts(plan@) == search_plan(*env),
{
    let mut plan: Vec<CliCandidate> = Vec::new();
    assert(plan_texts(plan@) =~= Seq::empty());
    match &env.custom_path {
        Some(custom) => {
            if !blank(custom.as_str()) {
                push_candidate(&mut plan, trim(custom.as_str()), Vec::new());
                assert(texts_of(Seq::<String>::empty()) =~= Seq::<Seq<char>>::empty());
            }
        },
        None => {},
    }
    assert(plan_texts(plan@) =~= custom_candidates(text_of(env.custom_path)));
    if env.windows {
        match &env.appdata {
            Some(appdata) => {
                push_nested(&mut plan, appdata.as_str(), "npm", "codex.cmd");
                push_nested(&mut plan, appdata.as_str(), "npm", "codex.bat");
                push_nested(&mut plan, appdata.as_str(), "npm", "codex.exe");
                push_nested(&mut plan, appdata.as_str(), "npm", "codex");
            },
            None => {},
        }
    }
    assert(plan_texts(plan@) =~= custom_candidates(text_of(env.custom_path)) + appdata_candidates(
        env.windows,
        text_of(env.appdata),
    ));
    if env.windows {
        match &env.local_appdata {
            Some(local) => {
                push_installed(&mut plan, local.as_str(), "Codex");
                push_installed(&mut plan, local.as_str(), "codex");
            },
            None => {},
        }
    }
    let ghost fixed = custom_candidates(text_of(env.custom_path)) + appdata_candidates(
        env.windows,
        text_of(env.appdata),
    ) + local_appdata_candidates(env.windows, text_of(env.local_appdata));
    assert(plan_texts(plan@) =~= fixed);
    let mut i: usize = 0;
    assert(env.path_dirs@.take(0) =~= Seq::empty());
    assert(fixed + Seq::empty() =~= fixed);
    while i < env.path_dirs.len()
        invariant
            i <= env.path_dirs.len(),
            plan_texts(plan@) == fixed + path_candidates(env.windows, env.path_dirs@.take(i as int)),
        decreases env.path_dirs.len() - i,
    {
        proof {
            let next = env.path_dirs@.take(i + 1);
            assert(next.drop_last() =~= env.path_dirs@.take(i as int));
            assert(next.last() == env.path_dirs@[i as int]);
        }
        let ghost before = plan_texts(plan@);
        push_dir(&mut plan, env.windows, env.path_dirs[i].as_str());
        assert(before + dir_candidates(env.windows, env.path_dirs@[i as int]@) =~= fixed
            + path_candidates(env.windows, env.path_dirs@.take(i + 1)));
        i += 1;
    }
    assert(env.path_dirs@.take(env.path_dirs.len() as int) =~= env.path_dirs@);
    plan
}

/// The paths of `candidates` joined by a comma and a space.
pub open spec fn listed(candidates: Seq<(String, bool)>) -> Seq<char>
    decreases candidates.len(),
{
    if candidates.len() == 0 {
        Seq::empty()
    } else if candidates.len() == 1 {
        candidates[0].0@
    } else {
        listed(candidates.drop_last()) + ", "@ + candidates.last().0@
    }
}

/// The message for an executable that was found nowhere: it lists the first
/// twelve paths that were checked.
pub open spec fn not_found_text(candidates: Seq<(String, bool)>) -> Seq<char> {
    let shown = if candidates.len() <= 12 {
        candidates
    } else {
        candidates.take(12)
    };
    let preview = listed(shown);
    "Codex CLI executable not found. Checked paths: "@ + if preview.len() == 0 {
        "<none>"@
    } else {
        preview
    }
}

/// `i` is the first candidate that is an existing file.
pub open spec fn first_file(candidates: Seq<(String, bool)>, i: int) -> bool {
    0 <= i < candidates.len() && candidates[i].1 && forall|j: int|
        0 <= j < i ==> !(#[trigger] candidates[j]).1
}

fn not_found_message(candidates: &Vec<(String, bool)>) -> (message: String)
    ensures
        message@ == not_found_text(candidates@),
{
    let shown: usize = if candidates.len() <= 12 {
        candidates.len()
    } else {
        12
    };
    let ghost firsts = candidates@.take(shown as int);
    let mut preview = String::new();
    let mut i: usize = 0;
    assert(firsts.take(0) =~= Seq::empty());
    while i < shown
        invariant
            i <= shown <= candidates.len(),
            firsts == candidates@.take(shown as int),
            preview@ == listed(firsts.take(i as int)),
        decreases shown - i,
    {
        proof {
            let next = firsts.take(i + 1);
            assert(next.drop_last() =~= firsts.take(i as int));
            assert(next.last() == candidates@[i as int]);
            if i == 0 {
                assert(next[0] == candidates@[0]);
                assert(preview@ + candidates@[0].0@ =~= candidates@[0].0@);
            }
        }
        if i > 0 {
            preview.append(", ");
        }
        preview.append(candidates[i].0.as_str());
        i += 1;
    }
    assert(firsts.take(shown as int) =~= firsts);
    assert(candidates@.len() <= 12 ==> firsts =~= candidates@);
    let mut message = "Codex CLI executable not found. Checked paths: ".to_string();
    if preview.as_str().unicode_len() == 0 {
        message.append("<none>");
    } else {
        message.append(preview.as_str());
    }
    message
}

/// Picks the executable: each candidate comes with the answer whether it is
/// an existing file, and the first that is one wins. Where none is, the
/// error lists what was checked.
pub fn resolve_codex_cli_path(candidates: &Vec<(String, bool)>) -> (found: Result<String, String>)
    ensures
        match found {
            Ok(path) => exists|i: int| #[trigger]
                first_file(candidates@, i) && path == candidates@[i].0,
            Err(message) => (forall|i: int|
                0 <= i < candidates@.len() ==> !(#[trigger] candidates@[i]).1) && message@
                == not_found_text(candidates@),
        },
{
    let mut i: usize = 0;
    while i < candidates.len()
        invariant
            i <= candidates.len(),
            forall|j: int| 0 <= j < i ==> !(#[trigger] candidates@[j]).1,
        decreases candidates.len() - i,
    {
        if candidates[i].1 {
            assert(first_file(candidates@, i as int));
            return Ok(candidates[i].0.clone());
        }
        i += 1;
    }
    Err(not_found_message(candidates))
}

/// Whether the executable is started through the command interpreter: on
/// Windows, where its extension is that of a batch file, whatever its case.
pub open spec fn needs_interpreter(windows: bool, extension: Option<Seq<char>>) -> bool {
    windows && extension is Some && (lowercase(extension->Some_0) == "cmd"@ || lowercase(
        extension->Some_0,
    ) == "bat"@)
}

/// Says whether the executable is started through the command
/// interpreter. `extension` is the extension of its file name, if it has
/// one.
pub fn runs_through_interpreter(windows: bool, extension: Option<&str>) -> (through: bool)
    ensures
        through == needs_interpreter(
            windows,
            match extension {
                Some(ext) => Some(ext@),
                None => None,
            },
        ),
{
    if !windows {
        return false;
    }
    match extension {
        Some(ext) => {
            let lower = to_lowercase(ext);
            same_text(lower.as_str(), "cmd") || same_text(lower.as_str(), "bat")
        },
        None => false,
    }
}

/// The name of the scratch directory of one run: made of the process id and
/// of the nanoseconds since the epoch.
pub open spec fn session_folder_text(process_id: u32, nanos: u128) -> Seq<char> {
    "session-"@ + decimal_digits(process_id as nat) + "-"@ + decimal_digits(nanos as nat)
}

/// Names the scratch directory of one run.
pub fn session_folder_name(process_id: u32, nanos: u128) -> (name: String)
    ensures
        name@ == session_folder_text(process_id, nanos),
{
    let mut name = "session-".to_string();
    append_digits(&mut name, process_id as u128);
    name.append("-");
    append_digits(&mut name, nanos);
    name
}

/// The arguments of the probe: the model, the reasoning effort, no
/// repository check, no colour, the file for the last message, the working
/// directory where it is known, and the prompt.
pub open spec fn cli_arguments_text(
    output_file: Seq<char>,
    working_dir: Option<Seq<char>>,
    prompt: Seq<char>,
) -> Seq<Seq<char>> {
    seq![
        "exec"@,
        "-m"@,
        "gpt-5.3-codex"@,
        "-c"@,
        "model_reasoning_effort=\"low\""@,
        "--skip-git-repo-check"@,
        "--color"@,
        "never"@,
        "--output-last-message"@,
        output_file,
    ] + match working_dir {
        Some(dir) => seq!["-C"@, dir],
        None => Seq::empty(),
    } + seq![prompt]
}

/// Lists the arguments of the probe.
pub fn cli_arguments(output_file: &str, working_dir: Option<&str>, prompt: &str) -> (args: Vec<
    String,
>)
    ensures
        texts_of(args@) == cli_arguments_text(
            output_file@,
            match working_dir {
                Some(dir) => Some(dir@),
                None => None,
            },
            prompt@,
        ),
{
    let mut args: Vec<String> = Vec::new();
    args.push("exec".to_string());
    args.push("-m".to_string());
    args.push("gpt-5.3-codex".to_string());
    args.push("-c".to_string());
    args.push("model_reasoning_effort=\"low\"".to_string());
    args.push("--skip-git-repo-check".to_string());
    args.push("--color".to_string());
    args.push("never".to_string());
    args.push("--output-last-message".to_string());
    args.push(output_file.to_string());
    match working_dir {
        Some(dir) => {
            args.push("-C".to_string());
            args.push(dir.to_string());
        },
        None => {},
    }
    args.push(prompt.to_string());
    assert(texts_of(args@) =~= cli_arguments_text(
        output_file@,
        match working_dir {
            Some(dir) => Some(dir@),
            None => None,
        },
        prompt@,
    ));
    args
}

/// The message of a probe that ended with a failure status: the exit code,
/// where there is one, and at most five hundred characters of what it wrote
/// to its error stream, or to its output where that stream is blank.
pub open spec fn cli_failure_text(code: Option<i32>, stdout: Seq<char>, stderr: Seq<char>) -> Seq<
    char,
> {
    let details = if is_blank(stderr) {
        trimmed(stdout)
    } else {
        trimmed(stderr)
    };
    "Codex CLI wakeup failed (exit="@ + match code {
        Some(c) => decimal(c as int),
        None => "unknown"@,
    } + "): "@ + clipped(details, 500)
}

/// Composes the message of a probe that ended with a failure status.
pub fn cli_failure_message(code: Option<i32>, stdout: &str, stderr: &str) -> (message: String)
    ensures
        message@ == cli_failure_text(code, stdout@, stderr@),
{
    let details = if blank(stderr) {
        trim(stdout)
    } else {
        trim(stderr)
    };
    let mut message = "Codex CLI wakeup failed (exit=".to_string();
    match code {
        Some(c) => message.append(decimal_text(c as i64).as_str()),
        None => message.append("unknown"),
    }
    message.append("): ");
    message.append(trim_for_log(details, 500).as_str());
    assert(message@ =~= cli_failure_text(code, stdout@, stderr@));
    message
}

/// What a finished probe left behind: whether it ended in success, its exit
/// code where it has one, and what it wrote to its two streams.
#[derive(Debug, Clone, PartialEq, Eq)]
pub struct ProbeOutput {
    pub success: bool,
    pub code: Option<i32>,
    pub stdout: String,
    pub stderr: String,
}

/// The message of a probe that could not be started.
pub open spec fn launch_failure_text(binary: Seq<char>, error: Seq<char>) -> Seq<char> {
    "Failed to launch codex CLI wakeup (binary="@ + binary + "): "@ + error
}

/// `result` is what a run of the probe comes to: the launch error for one
/// that did not start, the failure message for one that ended in failure,
/// else its last message.
pub open spec fn concludes_probe(
    binary: Seq<char>,
    launched: Result<ProbeOutput, String>,
    file: Option<Seq<char>>,
    result: Result<String, String>,
) -> bool {
    match launched {
        Err(error) => result is Err && result->Err_0@ == launch_failure_text(binary, error@),
        Ok(output) => if output.success {
            result is Ok && result->Ok_0@ == last_message_text(file, output.stdout@)
        } else {
            result is Err && result->Err_0@ == cli_failure_text(
                output.code,
                output.stdout@,
                output.stderr@,
            )
        },
    }
}

/// Where the last line of `s` begins: behind its last line feed, or at its
/// front.
pub open spec fn last_line_start(s: Seq<char>) -> int
    decreases s.len(),
{
    if s.len() == 0 {
        0
    } else if s.last() == '\n' {
        s.len() as int
    } else {
        last_line_start(s.drop_last())
    }
}

/// A line that says nothing: an empty one, or the token count's heading.
pub open spec fn is_noise(line: Seq<char>) -> bool {
    line.len() == 0 || line == "tokens used"@
}

/// The last line of `s` that, trimmed, is no noise.
pub open spec fn last_telling_line(s: Seq<char>) -> Option<Seq<char>>
    decreases s.len(),
{
    let start = last_line_start(s);
    let line = trimmed(s.skip(start));
    if !is_noise(line) {
        Some(line)
    } else if start <= 0 || start > s.len() {
        None
    } else {
        last_telling_line(s.take(start - 1))
    }
}

/// The probe's last message: what the file holds, trimmed, unless that is
/// missing or blank; else the last telling line of the output; else a fixed
/// sentence.
pub open spec fn last_message_text(file: Option<Seq<char>>, stdout: Seq<char>) -> Seq<char> {
    if file is Some && !is_blank(file->Some_0) {
        trimmed(file->Some_0)
    } else {
        match last_telling_line(stdout) {
            Some(line) => line,
            None => "Wakeup request sent."@,
        }
    }
}

/// `last_line_start` is the one position with no line feed behind it and
/// a line feed, or the front, before it.
pub proof fn lemma_last_line_start(s: Seq<char>, start: int)
    requires
        0 <= start <= s.len(),
        forall|j: int| start <= j < s.len() ==> #[trigger] s[j] != '\n',
        start == 0 || s[start - 1] == '\n',
    ensures
        last_line_start(s) == start,
    decreases s.len() - start,
{
    if start < s.len() {
        let front = s.drop_last();
        assert(s.last() == s[s.len() - 1]);
        assert forall|j: int| start <= j < front.len() implies #[trigger] front[j] != '\n' by {
            assert(front[j] == s[j]);
        }
        if start > 0 {
            assert(front[start - 1] == s[start - 1]);
        }
        lemma_last_line_start(front, start);
    }
}

/// Reads the probe's last message from what its file held, where it could
/// be read, and from its output.
pub fn read_last_message(file: Option<&str>, stdout: &str) -> (message: String)
    ensures
        message@ == last_message_text(
            match file {
                Some(content) => Some(content@),
                None => None,
            },
            stdout@,
        ),
{
    match file {
        Some(content) => {
            if !blank(content) {
                return trim(content).to_string();
            }
        },
        None => {},
    }
    let total: usize = stdout.unicode_len();
    let mut end: usize = total;
    assert(stdout@.take(total as int) =~= stdout@);
    loop
        invariant
            total == stdout@.len(),
            end <= total,
            match file {
                Some(content) => is_blank(content@),
                None => true,
            },
            last_telling_line(stdout@) == last_telling_line(stdout@.take(end as int)),
        decreases end,
    {
        let mut start: usize = end;
        while start > 0 && stdout.get_char(start - 1) != '\n'
            invariant
                total == stdout@.len(),
                start <= end <= total,
                forall|j: int| start <= j < end ==> #[trigger] stdout@[j] != '\n',
            decreases start,
        {
            start -= 1;
        }
        let ghost head = stdout@.take(end as int);
        proof {
            lemma_last_line_start(head, start as int);
            assert(head.skip(start as int) =~= stdout@.subrange(start as int, end as int));
        }
        let line = trim(stdout.substring_char(start, end));
        if line.unicode_len() > 0 && !same_text(line, "tokens used") {
            return line.to_string();
        }
        if start == 0 {
            return "Wakeup request sent.".to_string();
        }
        proof {
            assert(head.take(start - 1) =~= stdout@.take(start - 1));
        }
        end = start - 1;
    }
}

/// Concludes a run of the probe. `binary` is the executable's path,
/// `launched` what starting it gave, `file` what the file for the last
/// message held, where it could be read.
pub fn probe_result(binary: &str, launched: Result<ProbeOutput, String>, file: Option<&str>) -> (result:
    Result<String, String>)
    ensures
        concludes_probe(
            binary@,
            launched,
            match file {
                Some(content) => Some(content@),
                None => None,
            },
            result,
        ),
{
    match launched {
        Err(error) => {
            let mut message = "Failed to launch codex CLI wakeup (binary=".to_string();
            message.append(binary);
            message.append("): ");
            message.append(error.as_str());
            Err(message)
        },
        Ok(output) => {
            if output.success {
                Ok(read_last_message(file, output.stdout.as_str()))
            } else {
                Err(cli_failure_message(output.code, output.stdout.as_str(), output.stderr.as_str()))
            }
        },
    }
}

} // verus!
