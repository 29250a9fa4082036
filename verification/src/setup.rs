//! Decisions of the command-line front end: what to do with a loaded
//! configuration, which answer to keep at each prompt, how packages are
//! offered, what is reported after (dis)connecting, and how the user's `PATH`
//! is extended.

use crate::config::{ConfigError, StoredConfig};
use crate::models::{CloseNetResponse, GetInfoResponse, OnlineResponse};
use crate::text::{chars_of, concat, contains_line, has_line, is_line_span, line_text, str_trim, trimmed};
use vstd::prelude::*;
use vstd::string::*;

verus! {

broadcast use vstd::string::group_string_axioms;

// ---------------------------------------------------------------------------
// Loading the configuration

/// What the front end does after trying to load the saved configuration.
#[derive(Debug, Clone, Copy, PartialEq, Eq)]
pub enum LoadDecision {
    /// A configuration was found: use it.
    UseSaved,
    /// There is none yet: run the setup.
    StartSetup,
    /// The file is corrupt: ask whether to overwrite it.
    ConfirmOverwrite,
    /// Any other failure: report it and stop.
    Abort,
}

/// The step taken on the result of loading the configuration.
pub fn load_decision(loaded: &Result<Option<StoredConfig>, ConfigError>) -> (d: LoadDecision)
    ensures
        d == match loaded {
            Ok(Some(_)) => LoadDecision::UseSaved,
            Ok(None) => LoadDecision::StartSetup,
            Err(ConfigError::Invalid(_)) => LoadDecision::ConfirmOverwrite,
            Err(_) => LoadDecision::Abort,
        },
{
    match loaded {
        Ok(Some(_)) => LoadDecision::UseSaved,
        Ok(None) => LoadDecision::StartSetup,
        Err(ConfigError::Invalid(_)) => LoadDecision::ConfirmOverwrite,
        Err(_) => LoadDecision::Abort,
    }
}

// ---------------------------------------------------------------------------
// Prompt answers

/// The user name to keep: the trimmed answer, or the saved name when the
/// answer is blank and one was saved.
pub fn username_from_input(input: &str, existing: Option<&StoredConfig>) -> (name: String)
    ensures
        name@ == (if trimmed(input@).len() == 0 && existing is Some {
            existing->0.username@
        } else {
            trimmed(input@)
        }),
{
    let t = str_trim(input);
    if t.is_empty() {
        if let Some(current) = existing {
            return current.username.clone();
        }
    }
    String::from_str(t)
}

/// The password to keep: the answer as typed, or the saved password when the
/// answer is empty and one was saved.
pub fn password_from_input(input: &str, existing: Option<&StoredConfig>) -> (password: String)
    ensures
        password@ == (if input@.len() == 0 && existing is Some {
            existing->0.password@
        } else {
            input@
        }),
{
    if input.is_empty() {
        if let Some(current) = existing {
            return current.password.clone();
        }
    }
    String::from_str(input)
}

/// The package typed by hand: the trimmed answer, or the saved package when
/// the answer is blank and one was saved.
pub fn package_from_input(input: &str, existing: Option<&StoredConfig>) -> (package: String)
    ensures
        package@ == (if trimmed(input@).len() == 0 && existing is Some {
            existing->0.package@
        } else {
            trimmed(input@)
        }),
{
    let t = str_trim(input);
    if t.is_empty() {
        if let Some(current) = existing {
            return current.package.clone();
        }
    }
    String::from_str(t)
}

// ---------------------------------------------------------------------------
// Packages

/// The last menu entry, chosen to type a package by hand.
pub const MANUAL_PACKAGE_ITEM: &'static str = "手动输入套餐";

/// How the package is asked for.
#[derive(Debug, Clone, Copy, PartialEq, Eq)]
pub enum PackagePrompt {
    /// Offer the fetched packages in a menu.
    Menu,
    /// Nothing to offer: ask for the package by hand.
    Manual,
    /// Fetching failed: say so, then ask for the package by hand.
    ManualAfterFetchFailure,
}

/// Printed when the offered packages could not be fetched.
pub const FETCH_FAILED_MESSAGE: &'static str = "自动获取套餐失败，将改为手动输入。";

/// The way to ask for the package, given the fetched package names (`None`
/// when fetching them failed): a menu only when some were fetched.
pub fn package_prompt(fetched: Option<&Vec<String>>) -> (prompt: PackagePrompt)
    ensures
        prompt == match fetched {
            None => PackagePrompt::ManualAfterFetchFailure,
            Some(list) => if list@.len() > 0 {
                PackagePrompt::Menu
            } else {
                PackagePrompt::Manual
            },
        },
{
    match fetched {
        None => PackagePrompt::ManualAfterFetchFailure,
        Some(list) => if list.len() > 0 {
            PackagePrompt::Menu
        } else {
            PackagePrompt::Manual
        },
    }
}

/// The names of the packages the portal offers, in its order.
pub fn package_names(info: &GetInfoResponse) -> (names: Vec<String>)
    ensures
        names@.len() == info.data.available_packages@.len(),
        forall|i: int|
            0 <= i < names@.len() ==> #[trigger] names@[i]@
                == info.data.available_packages@[i].name@,
{
    let packages = &info.data.available_packages;
    let mut names: Vec<String> = Vec::new();
    let mut i: usize = 0;
    while i < packages.len()
        invariant
            i <= packages@.len(),
            names@.len() == i,
            forall|k: int| 0 <= k < i ==> #[trigger] names@[k]@ == packages@[k].name@,
        decreases packages@.len() - i,
    {
        names.push(packages[i].name.clone());
        i = i + 1;
    }
    names
}

/// The package menu: every offered package, then the entry for typing one.
pub fn package_menu(list: &Vec<String>) -> (items: Vec<String>)
    ensures
        items@.len() == list@.len() + 1,
        forall|i: int| 0 <= i < list@.len() ==> #[trigger] items@[i]@ == list@[i]@,
        items@[list@.len() as int]@ == MANUAL_PACKAGE_ITEM@,
{
    let mut items: Vec<String> = Vec::new();
    let mut i: usize = 0;
    while i < list.len()
        invariant
            i <= list@.len(),
            items@.len() == i,
            forall|k: int| 0 <= k < i ==> #[trigger] items@[k]@ == list@[k]@,
        decreases list@.len() - i,
    {
        items.push(list[i].clone());
        i = i + 1;
    }
    items.push(String::from_str(MANUAL_PACKAGE_ITEM));
    items
}

/// `list[i]` is the first entry equal to `name`.
pub open spec fn first_match(list: Seq<String>, name: Seq<char>, i: int) -> bool {
    &&& 0 <= i < list.len()
    &&& list[i]@ == name
    &&& forall|j: int| 0 <= j < i ==> #[trigger] list[j]@ != name
}

/// The menu entry selected at first: the saved package where the list holds
/// it, else the first entry.
pub fn default_package_index(list: &Vec<String>, existing: Option<&StoredConfig>) -> (index: usize)
    ensures
        match existing {
            Some(c) => if exists|i: int| 0 <= i < list@.len() && #[trigger] list@[i]@ == c.package@ {
                first_match(list@, c.package@, index as int)
            } else {
                index == 0
            },
            None => index == 0,
        },
        list@.len() > 0 ==> index < list@.len(),
{
    match existing {
        None => 0,
        Some(c) => {
            let mut i: usize = 0;
            while i < list.len()
                invariant
                    existing == Some(c),
                    i <= list@.len(),
                    forall|j: int| 0 <= j < i ==> #[trigger] list@[j]@ != c.package@,
                decreases list@.len() - i,
            {
                if list[i] == c.package {
                    assert(list@[i as int]@ == c.package@);
                    return i;
                }
                i = i + 1;
            }
            0
        },
    }
}

/// The package picked from the menu, or `None` when the entry for typing one
/// by hand (or anything past the list) was picked.
pub fn selected_package(list: &Vec<String>, selection: usize) -> (package: Option<String>)
    ensures
        selection < list@.len() ==> (package matches Some(p) && p@ == list@[selection as int]@),
        selection >= list@.len() ==> package is None,
{
    if selection < list.len() {
        Some(list[selection].clone())
    } else {
        None
    }
}

// ---------------------------------------------------------------------------
// Reports

/// The lines printed after an attempt to open the network.
pub fn connect_report(response: &OnlineResponse, info: &GetInfoResponse, package: &str) -> (lines: Vec<String>)
    ensures
        response.status ==> lines@.len() == 3 && lines@[0]@ == "认证成功: "@ + response.hint@
            && lines@[1]@ == "IP: "@ + info.data.ip@ && lines@[2]@ == "套餐: "@ + package@,
        !response.status ==> lines@.len() == 1 && lines@[0]@ == "认证失败: "@ + response.hint@,
{
    let mut lines: Vec<String> = Vec::new();
    if response.status {
        lines.push(concat("认证成功: ", response.hint.as_str()));
        lines.push(concat("IP: ", info.data.ip.as_str()));
        lines.push(concat("套餐: ", package));
    } else {
        lines.push(concat("认证失败: ", response.hint.as_str()));
    }
    lines
}

/// The lines printed after an attempt to close the session.
pub fn disconnect_report(response: &CloseNetResponse, info: &GetInfoResponse) -> (lines: Vec<String>)
    ensures
        response.status ==> lines@.len() == 2 && lines@[0]@ == "下线成功: "@ + response.message@
            && lines@[1]@ == "IP: "@ + info.data.ip@,
        !response.status ==> lines@.len() == 1 && lines@[0]@ == "下线失败: "@ + response.message@,
{
    let mut lines: Vec<String> = Vec::new();
    if response.status {
        lines.push(concat("下线成功: ", response.message.as_str()));
        lines.push(concat("IP: ", info.data.ip.as_str()));
    } else {
        lines.push(concat("下线失败: ", response.message.as_str()));
    }
    lines
}

// ---------------------------------------------------------------------------
// PATH

/// The new value of the Windows user `PATH`: the directory alone when `PATH`
/// is empty, else appended after a `;`.
pub fn windows_path_value(current: &str, dir: &str) -> (value: String)
    ensures
        value@ == (if current@.len() == 0 { dir@ } else { current@ + ";"@ + dir@ }),
{
    if current.is_empty() {
        String::from_str(dir)
    } else {
        let with_sep = concat(current, ";");
        concat(with_sep.as_str(), dir)
    }
}

/// The shell line that puts `dir` in front of `PATH`.
pub open spec fn export_line_text(dir: Seq<char>) -> Seq<char> {
    "export PATH=\""@ + dir + ":$PATH\""@
}

/// The shell line that puts `dir` in front of `PATH`.
pub fn export_line(dir: &str) -> (line: String)
    ensures
        line@ == export_line_text(dir@),
{
    let head = concat("export PATH=\"", dir);
    concat(head.as_str(), ":$PATH\"")
}

/// The profile with `line` added as a line of its own, ended by `\n`.
pub open spec fn profile_with_line(existing: Seq<char>, line: Seq<char>) -> Seq<char> {
    if existing.len() == 0 {
        line + seq!['\n']
    } else if existing.last() == '\n' {
        existing + line + seq!['\n']
    } else {
        existing + seq!['\n'] + line + seq!['\n']
    }
}

/// The new profile text, or `None` when one of its lines already is `line`.
pub fn updated_profile(existing: &str, line: &str) -> (content: Option<String>)
    ensures
        has_line(existing@, line@) ==> content is None,
        !has_line(existing@, line@) ==> (content matches Some(c) && c@ == profile_with_line(
            existing@,
            line@,
        )),
{
    if contains_line(existing, line) {
        return None;
    }
    let v = chars_of(existing);
    let with_line = if v.len() == 0 {
        concat(line, "\n")
    } else if v[v.len() - 1] == '\n' {
        let e = concat(existing, line);
        concat(e.as_str(), "\n")
    } else {
        let e = concat(existing, "\n");
        let e = concat(e.as_str(), line);
        concat(e.as_str(), "\n")
    };
    proof {
        reveal_strlit("\n");
    }
    Some(with_line)
}

/// A text in which no character is a line feed.
pub open spec fn single_line(s: Seq<char>) -> bool {
    forall|k: int| 0 <= k < s.len() ==> s[k] != '\n'
}

/// A line that has no `\n` and does not end in `\r` is, once added, one of
/// the profile's lines: a second `updated_profile` with it changes nothing.
pub proof fn added_line_is_found(existing: Seq<char>, line: Seq<char>)
    requires
        single_line(line),
        line.len() == 0 || line.last() != '\r',
    ensures
        has_line(profile_with_line(existing, line), line),
{
    let content = profile_with_line(existing, line);
    let prefix = if existing.len() == 0 {
        Seq::<char>::empty()
    } else if existing.last() == '\n' {
        existing
    } else {
        existing + seq!['\n']
    };
    assert(content =~= prefix + line + seq!['\n']);
    let a = prefix.len() as int;
    let b = a + line.len();
    assert(content[b] == '\n');
    assert(a == 0 || content[a - 1] == '\n');
    assert forall|k: int| a <= k < b implies content[k] != '\n' by {
        assert(content[k] == line[k - a]);
    }
    assert(is_line_span(content, a, b));
    if a < b {
        assert(content[b - 1] == line.last());
    }
    assert(content.subrange(a, b) =~= line);
    assert(line_text(content, a, b) == line);
}

/// Adding a directory without line feeds to the profile twice writes its
/// `export` line once: after the first addition the line is found.
pub proof fn adding_a_directory_twice_writes_it_once(existing: Seq<char>, dir: Seq<char>)
    requires
        single_line(dir),
    ensures
        has_line(
            profile_with_line(existing, export_line_text(dir)),
            export_line_text(dir),
        ),
{
    reveal_strlit("export PATH=\"");
    reveal_strlit(":$PATH\"");
    let line = export_line_text(dir);
    let head = "export PATH=\""@;
    let tail = ":$PATH\""@;
    assert forall|k: int| 0 <= k < line.len() implies line[k] != '\n' by {
        if k < head.len() {
            assert(line[k] == head[k]);
        } else if k < head.len() + dir.len() {
            assert(line[k] == dir[k - head.len()]);
        } else {
            assert(line[k] == tail[k - head.len() - dir.len()]);
        }
    }
    assert(line.last() == '"');
    added_line_is_found(existing, line);
}

/// The export line is `export PATH="`, then the directory, then `:$PATH"`:
/// the directory goes in front of the rest of `PATH`.
pub proof fn export_line_puts_directory_first(dir: Seq<char>)
    ensures
        export_line_text(dir).len() == dir.len() + 20,
        export_line_text(dir).take(13) == seq![
            'e',
            'x',
            'p',
            'o',
            'r',
            't',
            ' ',
            'P',
            'A',
            'T',
            'H',
            '=',
            '"',
        ],
        export_line_text(dir).subrange(13, 13 + dir.len() as int) == dir,
        export_line_text(dir).skip(13 + dir.len() as int) == seq![':', '$', 'P', 'A', 'T', 'H', '"'],
{
    reveal_strlit("export PATH=\"");
    reveal_strlit(":$PATH\"");
    let line = export_line_text(dir);
    assert(line.take(13) =~= seq!['e', 'x', 'p', 'o', 'r', 't', ' ', 'P', 'A', 'T', 'H', '=', '"']);
    assert(line.subrange(13, 13 + dir.len() as int) =~= dir);
    assert(line.skip(13 + dir.len() as int) =~= seq![':', '$', 'P', 'A', 'T', 'H', '"']);
}

/// Adding a line keeps the whole old profile in front: the new text is the
/// old one, a `\n` if it had text not ended by one, then the line and `\n`.
pub proof fn adding_a_line_keeps_the_profile(existing: Seq<char>, line: Seq<char>)
    ensures
        ({
            let c = profile_with_line(existing, line);
            let sep: int = if existing.len() > 0 && existing.last() != '\n' {
                1
            } else {
                0
            };
            &&& c.len() == existing.len() + sep + line.len() + 1
            &&& c.take(existing.len() as int) == existing
            &&& sep == 1 ==> c[existing.len() as int] == '\n'
            &&& c.subrange(existing.len() + sep, c.len() - 1) == line
            &&& c.last() == '\n'
        }),
{
    let c = profile_with_line(existing, line);
    let sep: int = if existing.len() > 0 && existing.last() != '\n' {
        1
    } else {
        0
    };
    assert(c.take(existing.len() as int) =~= existing);
    assert(c.subrange(existing.len() + sep, c.len() - 1) =~= line);
}

/// The first match holds the name, and no other entry holding the name comes
/// before it.
pub proof fn first_match_is_the_earliest(list: Seq<String>, name: Seq<char>, i: int, j: int)
    requires
        first_match(list, name, i),
        0 <= j < list.len(),
        list[j]@ == name,
    ensures
        list[i]@ == name,
        i <= j,
{
}

} // verus!
