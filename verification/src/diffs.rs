use vstd::prelude::*;

use crate::chars::{chars_of, string_of};
use crate::git::{LocalGitChangedFile, LocalGitTaskQuery, opt_view, string_views,
    spec_git_text_match_reasons, git_text_match_reasons};
use crate::gitctx::{ChangeView, change_view};
use crate::paths::{spec_validate_relative_path, validate_relative_chars, spec_path_in_generated_dir,
    path_in_generated_directory};
use crate::text::{spec_truncate_preserving_layout, truncate_preserving_layout, trim_start_ws,
    trim_start_chars, push_str_chars};
use crate::todos::{merge_reasons, clone_strings};

verus! {

/// The most files whose diff the local context includes.
pub open spec fn max_diff_files() -> nat {
    8
}

/// What the working copy says of a changed file whose diff is wanted.
pub enum DiffProbe {
    /// The path is a symbolic link.
    Symlink,
    /// The file is gone, unreadable or not a regular file.
    Unavailable,
    /// The file is larger than 256 KiB.
    Large,
    /// A regular file: the output of `git diff --cached --no-ext-diff
    /// --unified=2 -- <path>` and of `git diff --no-ext-diff --unified=2 --
    /// <path>` (`None` where Git was not asked or failed).
    File { cached: Option<String>, worktree: Option<String> },
}

/// The state of the diff that the local context assembles, change by change.
pub struct DiffAssembly {
    changes: Vec<LocalGitChangedFile>,
    diff: Vec<char>,
    diff_truncated: bool,
    omitted_large_files: usize,
    diff_files: usize,
    next: usize,
    max_chars: usize,
    done: bool,
}

/// The values of a diff assembly.
pub struct DiffState {
    pub changes: Seq<ChangeView>,
    pub diff: Seq<char>,
    pub diff_truncated: bool,
    pub omitted_large_files: nat,
    pub diff_files: nat,
    pub next: int,
    pub max_chars: nat,
    pub done: bool,
}

impl DiffAssembly {
    pub closed spec fn state(&self) -> DiffState {
        DiffState {
            changes: self.changes@.map_values(|c: LocalGitChangedFile| change_view(c)),
            diff: self.diff@,
            diff_truncated: self.diff_truncated,
            omitted_large_files: self.omitted_large_files as nat,
            diff_files: self.diff_files as nat,
            next: self.next as int,
            max_chars: self.max_chars as nat,
            done: self.done,
        }
    }

    /// Whether the assembly's counters are within their bounds.
    pub closed spec fn wf(&self) -> bool {
        &&& self.next <= self.changes@.len()
        &&& self.omitted_large_files <= self.next
        &&& self.diff_files <= self.next
        &&& self.diff_files <= 8
        &&& self.diff@.len() <= self.max_chars + 3
    }
}

pub open spec fn msg_invalid_git_path() -> Seq<char> {
    "Некорректный путь Git пропущен"@
}

pub open spec fn msg_generated_dir() -> Seq<char> {
    "Содержимое служебного каталога пропущено"@
}

pub open spec fn msg_symlink() -> Seq<char> {
    "Содержимое символической ссылки пропущено"@
}

pub open spec fn msg_unavailable() -> Seq<char> {
    "Diff удалённого или недоступного файла пропущен"@
}

pub open spec fn msg_large() -> Seq<char> {
    "Diff большого файла пропущен"@
}

/// A change with its warning set.
pub open spec fn with_warning(c: ChangeView, w: Seq<char>) -> ChangeView {
    (c.0, c.1, c.2, c.3, c.4, c.5, Some(w))
}

/// The state after the changes that need no look at the working copy: changes
/// without index or worktree status (and untracked ones) are passed over, the
/// search stops (the diff marked truncated) once eight diffs are in or the
/// diff has reached its size, and invalid paths or paths in generated
/// directories get a warning. The result is done, or waits at a change whose
/// working copy must be probed.
pub open spec fn advance(st: DiffState) -> DiffState
    decreases st.changes.len() - st.next,
{
    if st.done || st.next < 0 || st.next >= st.changes.len() {
        DiffState { done: true, ..st }
    } else {
        let c = st.changes[st.next];
        if c.3 || (c.1 is None && c.2 is None) {
            advance(DiffState { next: st.next + 1, ..st })
        } else if st.diff_files >= max_diff_files() || st.diff.len() >= st.max_chars {
            DiffState { diff_truncated: true, done: true, ..st }
        } else {
            match spec_validate_relative_path(c.0) {
                Err(_) => advance(DiffState { changes: st.changes.update(st.next, with_warning(c, msg_invalid_git_path())), next: st.next + 1, ..st }),
                Ok(clean) => if spec_path_in_generated_dir(clean) {
                    advance(DiffState { changes: st.changes.update(st.next, with_warning(c, msg_generated_dir())), next: st.next + 1, ..st })
                } else {
                    st
                },
            }
        }
    }
}

/// The diff text of one file: the index diff under `## Индекс`, then the
/// working copy diff under `## Рабочая копия`, each only when the file has that
/// status and Git gave a non-empty diff.
pub open spec fn file_diff(c: ChangeView, cached: Option<Seq<char>>, worktree: Option<Seq<char>>) -> Seq<char> {
    let index_part = match cached {
        Some(v) => if c.1 is Some && v.len() > 0 { "## Индекс\n"@ + v } else { Seq::empty() },
        None => Seq::empty(),
    };
    match worktree {
        Some(v) => if c.2 is Some && v.len() > 0 {
            (if index_part.len() > 0 { index_part.push('\n') } else { index_part }) + "## Рабочая копия\n"@ + v
        } else {
            index_part
        },
        None => index_part,
    }
}

pub open spec fn probe_view(p: DiffProbe) -> (int, Option<Seq<char>>, Option<Seq<char>>) {
    match p {
        DiffProbe::Symlink => (0, None, None),
        DiffProbe::Unavailable => (1, None, None),
        DiffProbe::Large => (2, None, None),
        DiffProbe::File { cached, worktree } => (3, opt_view(cached), opt_view(worktree)),
    }
}

/// The state after the probe of the change the assembly waits at: links,
/// missing and large files get a warning (large ones are counted); a file's
/// non-empty diff is appended as a `### <path>` section (cut, and the diff
/// marked truncated, where it would pass the size), the change marked as
/// included with the reasons the diff adds.
pub open spec fn apply_probe(st: DiffState, probe: (int, Option<Seq<char>>, Option<Seq<char>>), task_id: Seq<char>, terms: Seq<Seq<char>>) -> DiffState {
    let c = st.changes[st.next];
    let next = st.next + 1;
    if probe.0 == 0 {
        DiffState { changes: st.changes.update(st.next, with_warning(c, msg_symlink())), next, ..st }
    } else if probe.0 == 1 {
        DiffState { changes: st.changes.update(st.next, with_warning(c, msg_unavailable())), next, ..st }
    } else if probe.0 == 2 {
        DiffState { changes: st.changes.update(st.next, with_warning(c, msg_large())), omitted_large_files: st.omitted_large_files + 1, next, ..st }
    } else {
        let fd = file_diff(c, probe.1, probe.2);
        if fd.len() == 0 {
            DiffState { next, ..st }
        } else {
            let reasons = merge_reasons(c.5, spec_git_text_match_reasons(fd, task_id, terms));
            let section = "\n### "@ + c.0 + seq!['\n'] + fd;
            let remaining: nat = if st.diff.len() <= st.max_chars { (st.max_chars - st.diff.len()) as nat } else { 0 };
            let cut = section.len() > remaining;
            DiffState {
                changes: st.changes.update(st.next, (c.0, c.1, c.2, c.3, true, reasons, c.6)),
                diff: st.diff + if cut { spec_truncate_preserving_layout(section, remaining) } else { section },
                diff_truncated: st.diff_truncated || cut,
                diff_files: st.diff_files + 1,
                next,
                ..st
            }
        }
    }
}

/// What the file system says of a path, read without following a link.
#[derive(Clone, Copy)]
pub struct FileFacts {
    pub is_symlink: bool,
    pub is_file: bool,
    pub len: u64,
}

/// Files larger than this (256 KiB) are neither diffed nor searched for TODOs.
pub open spec fn max_local_file_bytes() -> nat {
    256 * 1024
}

/// How a changed file's diff is treated, from what the file system says of
/// it (`None` where it could not be asked): a link is a link; a missing or
/// irregular file is unavailable; a regular file over 256 KiB is large; any
/// other regular file is read. `cached` and `worktree` are Git's diffs of a
/// readable file.
pub fn diff_probe_of(facts: Option<FileFacts>, cached: Option<String>, worktree: Option<String>) -> (r: DiffProbe)
    ensures
        probe_view(r) == match facts {
            None => (1int, None::<Seq<char>>, None::<Seq<char>>),
            Some(f) => if f.is_symlink {
                (0int, None, None)
            } else if !f.is_file {
                (1int, None, None)
            } else if f.len > max_local_file_bytes() {
                (2int, None, None)
            } else {
                (3int, opt_view(cached), opt_view(worktree))
            },
        },
{
    match facts {
        None => DiffProbe::Unavailable,
        Some(f) => if f.is_symlink {
            DiffProbe::Symlink
        } else if !f.is_file {
            DiffProbe::Unavailable
        } else if f.len > 256 * 1024 {
            DiffProbe::Large
        } else {
            DiffProbe::File { cached, worktree }
        },
    }
}

/// The diff text of one file from its Git outputs.
fn file_diff_exec(c: &LocalGitChangedFile, cached: &Option<String>, worktree: &Option<String>) -> (r: Vec<char>)
    ensures
        r@ == file_diff(change_view(*c), opt_view(*cached), opt_view(*worktree)),
{
    let mut fd: Vec<char> = Vec::new();
    if c.index_status.is_some() {
        match cached {
            Some(v) => {
                if !v.as_str().is_empty() {
                    push_str_chars(&mut fd, "## Индекс\n");
                    push_str_chars(&mut fd, v.as_str());
                }
            },
            None => {},
        }
    }
    let ghost index_part = fd@;
    if c.worktree_status.is_some() {
        match worktree {
            Some(v) => {
                if !v.as_str().is_empty() {
                    if fd.len() > 0 {
                        fd.push('\n');
                    }
                    push_str_chars(&mut fd, "## Рабочая копия\n");
                    push_str_chars(&mut fd, v.as_str());
                }
            },
            None => {},
        }
    }
    fd
}

fn copy_change(c: &LocalGitChangedFile) -> (r: LocalGitChangedFile)
    ensures
        change_view(r) == change_view(*c),
{
    LocalGitChangedFile {
        path: c.path.clone(),
        index_status: match &c.index_status {
            Some(s) => Some(s.clone()),
            None => None,
        },
        worktree_status: match &c.worktree_status {
            Some(s) => Some(s.clone()),
            None => None,
        },
        untracked: c.untracked,
        diff_included: c.diff_included,
        match_reasons: clone_strings(&c.match_reasons),
        warning: match &c.warning {
            Some(s) => Some(s.clone()),
            None => None,
        },
    }
}

impl DiffAssembly {
    /// A fresh assembly over the changed files, with a diff of at most
    /// `max_chars` characters.
    pub fn new(changes: Vec<LocalGitChangedFile>, max_chars: usize) -> (r: Self)
        ensures
            r.wf(),
            r.state() == (DiffState {
                changes: changes@.map_values(|c: LocalGitChangedFile| change_view(c)),
                diff: Seq::empty(),
                diff_truncated: false,
                omitted_large_files: 0,
                diff_files: 0,
                next: 0,
                max_chars: max_chars as nat,
                done: false,
            }),
    {
        DiffAssembly { changes, diff: Vec::new(), diff_truncated: false, omitted_large_files: 0, diff_files: 0, next: 0, max_chars, done: false }
    }

    fn set_warning(&mut self, msg: &str)
        requires
            old(self).next < old(self).changes@.len(),
        ensures
            final(self).state() == (DiffState {
                changes: old(self).state().changes.update(old(self).next as int, with_warning(old(self).state().changes[old(self).next as int], msg@)),
                ..old(self).state()
            }),
            final(self).next == old(self).next,
            final(self).changes@.len() == old(self).changes@.len(),
            final(self).omitted_large_files == old(self).omitted_large_files,
            final(self).diff_files == old(self).diff_files,
    {
        let i = self.next;
        let mut c = copy_change(&self.changes[i]);
        c.warning = Some(String::from_str(msg));
        let ghost before = self.changes@;
        self.changes.set(i, c);
        assert(self.changes@.map_values(|c: LocalGitChangedFile| change_view(c)) == before.map_values(|c: LocalGitChangedFile| change_view(c)).update(i as int, with_warning(change_view(before[i as int]), msg@)));
    }

    /// Moves past the changes that need no look at the working copy, as
    /// `advance` says; returns the index of the change whose working copy must
    /// be probed next, or `None` when the diff is complete.
    pub fn next_diff_request(&mut self) -> (r: Option<usize>)
        requires
            old(self).wf(),
        ensures
            final(self).wf(),
            final(self).state() == advance(old(self).state()),
            final(self).state().diff_files <= max_diff_files(),
            final(self).state().diff.len() <= final(self).state().max_chars + 3,
            match r {
                Some(i) => {
                    &&& !final(self).state().done
                    &&& i as int == final(self).state().next
                    &&& i < final(self).state().changes.len()
                    &&& final(self).state().diff_files < max_diff_files()
                    &&& final(self).state().diff.len() < final(self).state().max_chars
                },
                None => final(self).state().done,
            },
    {
        loop
            invariant
                self.wf(),
                advance(self.state()) == advance(old(self).state()),
            decreases self.changes@.len() - self.next,
        {
            if self.done || self.next >= self.changes.len() {
                self.done = true;
                return None;
            }
            let i = self.next;
            let untracked = self.changes[i].untracked;
            let none = self.changes[i].index_status.is_none() && self.changes[i].worktree_status.is_none();
            if untracked || none {
                self.next = i + 1;
                continue;
            }
            if self.diff_files >= 8 || self.diff.len() >= self.max_chars {
                self.diff_truncated = true;
                self.done = true;
                return None;
            }
            let path = chars_of(self.changes[i].path.as_str());
            match validate_relative_chars(&path) {
                Err(_) => {
                    self.set_warning("Некорректный путь Git пропущен");
                    self.next = i + 1;
                },
                Ok(clean) => {
                    let clean_s = string_of(&clean);
                    if path_in_generated_directory(clean_s.as_str()) {
                        self.set_warning("Содержимое служебного каталога пропущено");
                        self.next = i + 1;
                    } else {
                        return Some(i);
                    }
                },
            }
        }
    }

    /// Takes in the probe of the change that `next_diff_request` returned, as
    /// `apply_probe` says.
    pub fn record_diff_probe(&mut self, probe: DiffProbe, query: &LocalGitTaskQuery)
        requires
            old(self).wf(),
            !old(self).state().done,
            old(self).state().next < old(self).state().changes.len(),
            old(self).state().diff_files < max_diff_files(),
            old(self).state().diff.len() < old(self).state().max_chars,
        ensures
            final(self).wf(),
            final(self).state().diff_files <= max_diff_files(),
            final(self).state().diff.len() <= final(self).state().max_chars + 3,
            final(self).state() == apply_probe(old(self).state(), probe_view(probe), query.task_id@, string_views(query.terms@)),
    {
        let i = self.next;
        let n = self.changes.len();
        match probe {
            DiffProbe::Symlink => {
                self.set_warning("Содержимое символической ссылки пропущено");
                self.next = i + 1;
            },
            DiffProbe::Unavailable => {
                self.set_warning("Diff удалённого или недоступного файла пропущен");
                self.next = i + 1;
            },
            DiffProbe::Large => {
                self.set_warning("Diff большого файла пропущен");
                self.omitted_large_files = self.omitted_large_files + 1;
                self.next = i + 1;
            },
            DiffProbe::File { cached, worktree } => {
                let fd = file_diff_exec(&self.changes[i], &cached, &worktree);
                if fd.len() == 0 {
                    self.next = i + 1;
                    return;
                }
                self.append_file_diff(fd, query);
            },
        }
    }

    fn append_file_diff(&mut self, fd: Vec<char>, query: &LocalGitTaskQuery)
        requires
            old(self).wf(),
            old(self).next < old(self).changes@.len(),
            old(self).diff_files < 8,
            old(self).diff@.len() < old(self).max_chars,
            fd@.len() > 0,
        ensures
            final(self).wf(),
            ({
                let st = old(self).state();
                let c = st.changes[st.next];
                let reasons = merge_reasons(c.5, spec_git_text_match_reasons(fd@, query.task_id@, string_views(query.terms@)));
                let section = "\n### "@ + c.0 + seq!['\n'] + fd@;
                let remaining: nat = if st.diff.len() <= st.max_chars { (st.max_chars - st.diff.len()) as nat } else { 0 };
                let cut = section.len() > remaining;
                final(self).state() == DiffState {
                    changes: st.changes.update(st.next, (c.0, c.1, c.2, c.3, true, reasons, c.6)),
                    diff: st.diff + if cut { spec_truncate_preserving_layout(section, remaining) } else { section },
                    diff_truncated: st.diff_truncated || cut,
                    diff_files: st.diff_files + 1,
                    next: st.next + 1,
                    ..st
                }
            }),
    {
        let i = self.next;
        let n = self.changes.len();
        let ghost cv = change_view(self.changes@[i as int]);
        let fd_s = string_of(&fd);
        let found = git_text_match_reasons(fd_s.as_str(), query);
        let mut c = copy_change(&self.changes[i]);
        let reasons = crate::todos::merge_reasons_exec(clone_strings(&c.match_reasons), &found);
        let mut section: Vec<char> = Vec::new();
        push_str_chars(&mut section, "\n### ");
        push_str_chars(&mut section, c.path.as_str());
        section.push('\n');
        let ghost head = section@;
        assert(head == "\n### "@ + cv.0 + seq!['\n']);
        let mut j: usize = 0;
        while j < fd.len()
            invariant
                j <= fd@.len(),
                section@ == head + fd@.take(j as int),
            decreases fd.len() - j,
        {
            section.push(fd[j]);
            j = j + 1;
            assert(section@ == head + fd@.take(j as int));
        }
        assert(fd@.take(fd@.len() as int) == fd@);
        let remaining = if self.diff.len() <= self.max_chars {
            self.max_chars - self.diff.len()
        } else {
            0
        };
        let section_s = string_of(&section);
        let ghost old_diff = self.diff@;
        assert(section@ == "\n### "@ + cv.0 + seq!['\n'] + fd@);
        if section.len() > remaining {
            let cut = truncate_preserving_layout(section_s.as_str(), remaining);
            push_str_chars(&mut self.diff, cut.as_str());
            self.diff_truncated = true;
        } else {
            push_str_chars(&mut self.diff, section_s.as_str());
        }
        c.match_reasons = reasons;
        c.diff_included = true;
        let ghost before = self.changes@;
        self.changes.set(i, c);
        assert(self.changes@.map_values(|c: LocalGitChangedFile| change_view(c)) == before.map_values(|c: LocalGitChangedFile| change_view(c)).update(i as int, (cv.0, cv.1, cv.2, cv.3, true, merge_reasons(cv.5, spec_git_text_match_reasons(fd@, query.task_id@, string_views(query.terms@))), cv.6)));
        self.diff_files = self.diff_files + 1;
        self.next = i + 1;
        assert(self.diff@ == old_diff + if section@.len() > remaining { spec_truncate_preserving_layout(section@, remaining as nat) } else { section@ });
    }

    /// The `i`-th changed file, as the assembly holds it.
    pub fn change(&self, i: usize) -> (r: &LocalGitChangedFile)
        requires
            self.wf(),
            i < self.state().changes.len(),
        ensures
            change_view(*r) == self.state().changes[i as int],
    {
        &self.changes[i]
    }

    /// The assembled diff without its leading white space.
    pub fn diff_text(&self) -> (r: String)
        ensures
            r@ == trim_start_ws(self.state().diff),
    {
        string_of(&trim_start_chars(&self.diff))
    }

    /// Whether a diff was cut or left out for the size or file limits.
    pub fn diff_truncated(&self) -> (r: bool)
        ensures
            r == self.state().diff_truncated,
    {
        self.diff_truncated
    }

    /// How many large files had their diff left out.
    pub fn omitted_large_files(&self) -> (r: usize)
        ensures
            r as nat == self.state().omitted_large_files,
    {
        self.omitted_large_files
    }

    /// The changed files with the warnings and reasons the assembly added.
    pub fn into_changes(self) -> (r: Vec<LocalGitChangedFile>)
        ensures
            r@.map_values(|c: LocalGitChangedFile| change_view(c)) == self.state().changes,
    {
        self.changes
    }
}

} // verus!
