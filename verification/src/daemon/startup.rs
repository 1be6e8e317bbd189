//! What is checked before the daemon starts.

use vstd::prelude::*;

use crate::constants::{CLOUD_BACKUP_DIR, XRAY_BIN, XRAY_GEOIP, XRAY_GEOSITE, XUI_BACKUP_DIR};
use crate::outside::{
    from_utf8_lossy, is_version, lossy_text, older_release, precedes, release_text, valid_version,
    version_before,
};
use crate::text::{
    chars_of, decimal, digit, find_from, is_digit, is_white, occurs_at, text_of, trim,
    trimmed, white,
};
use crate::types::{is_proper, proper};

verus! {

// ---------------------------------------------------------------- lines and words

/// The first position from `i` on at which `p` stands, or the length where it
/// stands nowhere.
pub open spec fn position(s: Seq<char>, p: Seq<char>, i: int) -> int
    decreases s.len() - i,
{
    if i >= s.len() {
        s.len() as int
    } else if occurs_at(s, p, i) {
        i
    } else {
        position(s, p, i + 1)
    }
}

/// The first line of a text, without its line ending; an empty text has none.
pub open spec fn first_line_of(s: Seq<char>) -> Option<Seq<char>> {
    if s.len() == 0 {
        None
    } else {
        let n = position(s, "\n"@, 0);
        if n < s.len() && n > 0 && s[n - 1] == '\r' {
            Some(s.take(n - 1))
        } else {
            Some(s.take(n))
        }
    }
}

/// The position after the word that starts at `i`.
pub open spec fn word_end(s: Seq<char>, i: int) -> int
    decreases s.len() - i,
{
    if i < s.len() && !is_white(s[i]) {
        word_end(s, i + 1)
    } else {
        i
    }
}

/// The first word from `i` on that starts with a digit.
pub open spec fn digit_word(s: Seq<char>, i: int) -> Option<Seq<char>>
    decreases s.len() - i,
    when 0 <= i
{
    if i >= s.len() {
        None
    } else if is_white(s[i]) {
        digit_word(s, i + 1)
    } else if is_digit(s[i]) {
        Some(s.subrange(i, word_end(s, i)))
    } else {
        proof {
            lemma_word_end(s, i);
        }
        digit_word(s, word_end(s, i))
    }
}

/// A word ends after it has begun.
pub proof fn lemma_word_end(s: Seq<char>, i: int)
    requires
        0 <= i <= s.len(),
    ensures
        i <= word_end(s, i) <= s.len(),
        i < s.len() && !is_white(s[i]) ==> i < word_end(s, i),
    decreases s.len() - i,
{
    if i < s.len() && !is_white(s[i]) {
        lemma_word_end(s, i + 1);
    }
}

/// The word at place `n`, counted from the first one from `i` on.
pub open spec fn nth_word(s: Seq<char>, i: int, n: nat) -> Option<Seq<char>>
    decreases s.len() - i,
    when 0 <= i
{
    if i >= s.len() {
        None
    } else if is_white(s[i]) {
        nth_word(s, i + 1, n)
    } else if n == 0 {
        Some(s.subrange(i, word_end(s, i)))
    } else {
        proof {
            lemma_word_end(s, i);
        }
        nth_word(s, word_end(s, i), (n - 1) as nat)
    }
}

proof fn lemma_position(s: Seq<char>, p: Seq<char>, i: int, j: int)
    requires
        0 <= i <= j <= s.len(),
        j < s.len() ==> occurs_at(s, p, j),
        forall|k: int| i <= k < j ==> !occurs_at(s, p, k),
    ensures
        position(s, p, i) == j,
    decreases j - i,
{
    if i < j {
        lemma_position(s, p, i + 1, j);
    }
}

/// Finds `p`, which is not empty.
fn seek(s: &Vec<char>, p: &str, from: usize) -> (r: usize)
    requires
        from <= s@.len(),
        p@.len() > 0,
    ensures
        r == position(s@, p@, from as int),
        from <= r <= s@.len(),
{
    let pv = chars_of(p);
    match find_from(s, &pv, from) {
        Some(i) => {
            proof {
                lemma_position(s@, p@, from as int, i as int);
            }
            i
        },
        None => {
            proof {
                lemma_position(s@, p@, from as int, s@.len() as int);
            }
            s.len()
        },
    }
}

pub fn first_line(s: &str) -> (r: Option<String>)
    ensures
        crate::text::opt_text(r) == first_line_of(s@),
{
    let v = chars_of(s);
    if v.len() == 0 {
        return None;
    }
    proof {
        reveal_strlit("\n");
    }
    let n = seek(&v, "\n", 0);
    let ghost whole = v@;
    if n < v.len() && n > 0 && v[n - 1] == '\r' {
        let r = text_of(&v, 0, n - 1);
        assert(whole.subrange(0, n - 1) =~= whole.take(n - 1));
        Some(r)
    } else {
        let r = text_of(&v, 0, n);
        assert(whole.subrange(0, n as int) =~= whole.take(n as int));
        Some(r)
    }
}

fn end_of_word(s: &Vec<char>, from: usize) -> (r: usize)
    requires
        from < s@.len(),
        !is_white(s@[from as int]),
    ensures
        r == word_end(s@, from as int),
        from < r <= s@.len(),
{
    let n = s.len();
    let mut i: usize = from + 1;
    while i < n && !white(s[i])
        invariant
            from < i <= n,
            n == s@.len(),
            word_end(s@, from as int) == word_end(s@, i as int),
        decreases s@.len() - i,
    {
        i += 1;
    }
    i
}

fn find_digit_word(line: &str) -> (r: Option<String>)
    ensures
        crate::text::opt_text(r) == digit_word(line@, 0),
{
    let s = chars_of(line);
    let mut i: usize = 0;
    while i < s.len()
        invariant
            i <= s@.len(),
            s@ == line@,
            digit_word(s@, 0) == digit_word(s@, i as int),
        decreases s@.len() - i,
    {
        if white(s[i]) {
            i += 1;
        } else {
            let e = end_of_word(&s, i);
            if digit(s[i]) {
                return Some(text_of(&s, i, e));
            }
            i = e;
        }
    }
    None
}

/// The word at place `n` of a line.
pub fn word(line: &str, n: u64) -> (r: Option<String>)
    ensures
        crate::text::opt_text(r) == nth_word(line@, 0, n as nat),
{
    let s = chars_of(line);
    let mut left: u64 = n;
    let mut i: usize = 0;
    while i < s.len()
        invariant
            i <= s@.len(),
            s@ == line@,
            nth_word(s@, 0, n as nat) == nth_word(s@, i as int, left as nat),
        decreases s@.len() - i,
    {
        if white(s[i]) {
            i += 1;
        } else {
            let e = end_of_word(&s, i);
            if left == 0 {
                return Some(text_of(&s, i, e));
            }
            left -= 1;
            i = e;
        }
    }
    None
}

// ---------------------------------------------------------------- Ansible

/// The version between `core ` and `]`.
pub open spec fn core_part(line: Seq<char>) -> Option<Seq<char>> {
    let a = position(line, "core "@, 0);
    if a >= line.len() {
        None
    } else {
        let rest = line.skip(a + 5);
        let part = rest.take(position(rest, "core "@, 0));
        Some(trimmed(part.take(position(part, "]"@, 0))))
    }
}

/// The version that `ansible --version` reports: `ansible [core 2.19.2]` in the
/// newer form, `ansible 2.9.1` in the older one.
pub open spec fn ansible_version_of(stdout: Seq<char>) -> Option<Seq<char>> {
    match first_line_of(stdout) {
        None => None,
        Some(line) => match core_part(line) {
            Some(v) => Some(v),
            None => digit_word(line, 0),
        },
    }
}

fn rest_of(v: &Vec<char>, from: usize) -> (r: Vec<char>)
    requires
        from <= v@.len(),
    ensures
        r@ == v@.skip(from as int),
{
    let mut r: Vec<char> = Vec::new();
    let mut i: usize = from;
    while i < v.len()
        invariant
            from <= i <= v@.len(),
            r@ == v@.subrange(from as int, i as int),
        decreases v@.len() - i,
    {
        r.push(v[i]);
        i += 1;
    }
    r
}

fn find_core_part(line: &str) -> (r: Option<String>)
    ensures
        crate::text::opt_text(r) == core_part(line@),
{
    proof {
        reveal_strlit("core ");
        reveal_strlit("]");
        assert("core "@.len() == 5);
        assert("]"@.len() == 1);
    }
    let s = chars_of(line);
    let a = seek(&s, "core ", 0);
    if a >= s.len() {
        return None;
    }
    proof {
        lemma_occurs(s@, "core "@, 0);
    }
    let rest = rest_of(&s, a + 5);
    let n = seek(&rest, "core ", 0);
    let ghost whole = rest@;
    let mut part = rest;
    part.truncate(n);
    assert(part@ =~= whole.take(n as int));
    let e = seek(&part, "]", 0);
    let text = text_of(&part, 0, e);
    assert(part@.subrange(0, e as int) =~= part@.take(e as int));
    Some(trim(text.as_str()))
}

proof fn lemma_occurs(s: Seq<char>, p: Seq<char>, i: int)
    requires
        0 <= i,
        position(s, p, i) < s.len(),
    ensures
        occurs_at(s, p, position(s, p, i)),
    decreases s.len() - i,
{
    if !occurs_at(s, p, i) {
        lemma_occurs(s, p, i + 1);
    }
}

/// Finds the version that Ansible reports.
pub fn ansible_version(stdout: &str) -> (r: Option<String>)
    ensures
        crate::text::opt_text(r) == ansible_version_of(stdout@),
{
    match first_line(stdout) {
        None => None,
        Some(line) => match find_core_part(line.as_str()) {
            Some(v) => Some(v),
            None => find_digit_word(line.as_str()),
        },
    }
}

// ---------------------------------------------------------------- versions

/// The semantic version that a reported one stands for: a version with two
/// numbers gets a third, and what is no version counts as the oldest one.
pub open spec fn effective_version(v: Seq<char>) -> Seq<char> {
    if is_version(v) {
        v
    } else if is_version(v + ".0"@) {
        v + ".0"@
    } else {
        "0.0.0"@
    }
}

proof fn lemma_releases()
    ensures
        "0.0.0"@ == release_text(0, 0, 0),
        "2.19.0"@ == release_text(2, 19, 0),
        "26.0.0"@ == release_text(26, 0, 0),
{
    reveal_strlit("0.0.0");
    reveal_strlit("2.19.0");
    reveal_strlit("26.0.0");
    reveal_strlit(".");
    reveal_with_fuel(decimal, 2);
    assert(decimal(0) =~= seq!['0']);
    assert(decimal(2) =~= seq!['2']);
    assert(decimal(19) =~= seq!['1', '9']);
    assert(decimal(26) =~= seq!['2', '6']);
    assert("0.0.0"@ =~= release_text(0, 0, 0));
    assert("2.19.0"@ =~= release_text(2, 19, 0));
    assert("26.0.0"@ =~= release_text(26, 0, 0));
}

/// Is a reported version older than a release?
fn is_older(v: &str, than: &'static str) -> (r: bool)
    requires
        than@ == "2.19.0"@ || than@ == "26.0.0"@,
    ensures
        r == precedes(effective_version(v@), than@),
        forall|p: (u64, u64, u64), q: (u64, u64, u64)|
            v@ == #[trigger] release_text(p.0, p.1, p.2) && than@ == #[trigger] release_text(
                q.0,
                q.1,
                q.2,
            ) ==> r == older_release(p, q),
{
    proof {
        lemma_releases();
    }
    let _known = valid_version(than);
    let _zero = valid_version("0.0.0");
    if valid_version(v) {
        return version_before(v, than);
    }
    let mut padded = v.to_owned();
    padded.append(".0");
    if valid_version(padded.as_str()) {
        return version_before(padded.as_str(), than);
    }
    version_before("0.0.0", than)
}

/// Judges the Ansible installation by what `ansible --version` printed; nothing
/// where it could not be started.
pub open spec fn ansible_fault(stdout: Option<Seq<char>>) -> Option<Seq<char>> {
    match stdout {
        None => Some(
            "Ansible is absent from the system. Install a recent version (ansible-core >= 2.19) according to the official documentation at:\nhttps://docs.ansible.com/projects/ansible/latest/installation_guide/index.html"@,
        ),
        Some(text) => match ansible_version_of(text) {
            None => Some(
                "Could not parse version from ansible --version output. Is Ansible properly installed?"@,
            ),
            Some(v) => if precedes(effective_version(v), "2.19.0"@) {
                Some("Ansible must be upgraded to at least 2.19.0."@)
            } else {
                None
            },
        },
    }
}

/// Judges the Ansible installation once it is known whether the version that it
/// reports is too old.
pub fn judge_ansible(version: &Option<String>, too_old: bool) -> (r: Result<(), String>)
    ensures
        match r {
            Ok(_) => version is Some && !too_old,
            Err(e) => if version is None {
                e@
                    == "Could not parse version from ansible --version output. Is Ansible properly installed?"@
            } else {
                too_old && e@ == "Ansible must be upgraded to at least 2.19.0."@
            },
        },
{
    if version.is_none() {
        Err(
            "Could not parse version from ansible --version output. Is Ansible properly installed?".to_owned(),
        )
    } else if too_old {
        Err("Ansible must be upgraded to at least 2.19.0.".to_owned())
    } else {
        Ok(())
    }
}

/// Checks that a recent version of Ansible is installed, by what
/// `ansible --version` printed.
pub fn check_ansible(stdout: Option<&[u8]>) -> (r: Result<(), String>)
    ensures
        match (stdout, r) {
            (None, Ok(_)) => false,
            (None, Err(e)) => ansible_fault(None) == Some(e@),
            (Some(b), Ok(_)) => ansible_fault(Some(lossy_text(b@))) is None,
            (Some(b), Err(e)) => ansible_fault(Some(lossy_text(b@))) == Some(e@),
        },
        forall|p: (u64, u64, u64)|
            stdout is Some && ansible_version_of(lossy_text(stdout->Some_0@)) == Some(
                #[trigger] release_text(p.0, p.1, p.2),
            ) ==> (r is Ok <==> !older_release(p, (2, 19, 0))),
{
    let bytes = match stdout {
        None => return Err(
            "Ansible is absent from the system. Install a recent version (ansible-core >= 2.19) according to the official documentation at:\nhttps://docs.ansible.com/projects/ansible/latest/installation_guide/index.html".to_owned(),
        ),
        Some(b) => b,
    };
    let text = from_utf8_lossy(bytes);
    let version = ansible_version(text.as_str());
    let too_old = match &version {
        Some(v) => is_older(v.as_str(), "2.19.0"),
        None => false,
    };
    proof {
        lemma_releases();
        let q: (u64, u64, u64) = (2, 19, 0);
        assert("2.19.0"@ == release_text(q.0, q.1, q.2));
    }
    judge_ansible(&version, too_old)
}

// ---------------------------------------------------------------- Xray

/// The version that `xray --version` reports: the second word of the first line.
pub open spec fn xray_version_of(stdout: Seq<char>) -> Option<Seq<char>> {
    match first_line_of(stdout) {
        None => None,
        Some(line) => nth_word(line, 0, 1),
    }
}

/// How a file of Xray was found.
#[derive(Clone, Copy, Debug, PartialEq, Eq, Structural)]
pub struct FileState {
    pub exists: bool,
    pub readable: bool,
}

/// The files of Xray.
#[derive(Clone, Copy, Debug, PartialEq, Eq, Structural)]
pub struct XrayFiles {
    pub bin: FileState,
    pub geoip: FileState,
    pub geosite: FileState,
}

/// What is wrong with the files of Xray.
pub open spec fn xray_files_fault(f: XrayFiles) -> Option<Seq<char>> {
    if !(f.bin.exists && f.geoip.exists && f.geosite.exists) {
        Some(
            "Xray binary and/or its data files are missing from the system. Compile or download the file(s) from https://github.com/XTLS/Xray-core"@,
        )
    } else if !f.bin.readable {
        Some("The file '"@ + XRAY_BIN@ + "' is not accessible."@)
    } else if !f.geoip.readable {
        Some("The file '"@ + XRAY_GEOIP@ + "' is not accessible."@)
    } else if !f.geosite.readable {
        Some("The file '"@ + XRAY_GEOSITE@ + "' is not accessible."@)
    } else {
        None
    }
}

/// What is wrong with the Xray installation, where `xray --version` printed this,
/// or could not be started.
pub open spec fn xray_fault(f: XrayFiles, stdout: Option<Seq<char>>) -> Option<Seq<char>> {
    match xray_files_fault(f) {
        Some(e) => Some(e),
        None => match stdout {
            None => Some("Xray is not installed properly."@),
            Some(text) => match xray_version_of(text) {
                None => Some("Xray doesn't report its version."@),
                Some(v) => if precedes(effective_version(v), "26.0.0"@) {
                    Some("Minimum required Xray version is 26."@)
                } else {
                    None
                },
            },
        },
    }
}

fn inaccessible(path: &str) -> (r: String)
    ensures
        r@ == "The file '"@ + path@ + "' is not accessible."@,
{
    let mut e = "The file '".to_owned();
    e.append(path);
    e.append("' is not accessible.");
    e
}

/// Checks the files of Xray.
pub fn check_xray_files(f: &XrayFiles) -> (r: Result<(), String>)
    ensures
        match r {
            Ok(_) => xray_files_fault(*f) is None,
            Err(e) => xray_files_fault(*f) == Some(e@),
        },
{
    if !(f.bin.exists && f.geoip.exists && f.geosite.exists) {
        Err(
            "Xray binary and/or its data files are missing from the system. Compile or download the file(s) from https://github.com/XTLS/Xray-core".to_owned(),
        )
    } else if !f.bin.readable {
        Err(inaccessible(XRAY_BIN))
    } else if !f.geoip.readable {
        Err(inaccessible(XRAY_GEOIP))
    } else if !f.geosite.readable {
        Err(inaccessible(XRAY_GEOSITE))
    } else {
        Ok(())
    }
}

/// Judges the Xray installation once it is known whether the version that it
/// reports is too old.
pub fn judge_xray(version: &Option<String>, too_old: bool) -> (r: Result<(), String>)
    ensures
        match r {
            Ok(_) => version is Some && !too_old,
            Err(e) => if version is None {
                e@ == "Xray doesn't report its version."@
            } else {
                too_old && e@ == "Minimum required Xray version is 26."@
            },
        },
{
    if version.is_none() {
        Err("Xray doesn't report its version.".to_owned())
    } else if too_old {
        Err("Minimum required Xray version is 26.".to_owned())
    } else {
        Ok(())
    }
}

/// Checks that a recent Xray and its data files are present on the controller.
pub fn check_xray_paths(f: &XrayFiles, stdout: Option<&[u8]>) -> (r: Result<(), String>)
    ensures
        match (stdout, r) {
            (None, Ok(_)) => false,
            (None, Err(e)) => xray_fault(*f, None) == Some(e@),
            (Some(b), Ok(_)) => xray_fault(*f, Some(lossy_text(b@))) is None,
            (Some(b), Err(e)) => xray_fault(*f, Some(lossy_text(b@))) == Some(e@),
        },
        forall|p: (u64, u64, u64)|
            stdout is Some && xray_files_fault(*f) is None && xray_version_of(
                lossy_text(stdout->Some_0@),
            ) == Some(#[trigger] release_text(p.0, p.1, p.2)) ==> (r is Ok <==> !older_release(
                p,
                (26, 0, 0),
            )),
{
    match check_xray_files(f) {
        Err(e) => return Err(e),
        Ok(_) => {},
    }
    let bytes = match stdout {
        None => return Err("Xray is not installed properly.".to_owned()),
        Some(b) => b,
    };
    let text = from_utf8_lossy(bytes);
    let version = match first_line(text.as_str()) {
        None => None,
        Some(line) => word(line.as_str(), 1),
    };
    let too_old = match &version {
        Some(v) => is_older(v.as_str(), "26.0.0"),
        None => false,
    };
    proof {
        lemma_releases();
        let q: (u64, u64, u64) = (26, 0, 0);
        assert("26.0.0"@ == release_text(q.0, q.1, q.2));
    }
    judge_xray(&version, too_old)
}

// ---------------------------------------------------------------- folders

/// The warning on a backup folder that can clash with the folder of a server.
pub open spec fn clash_text(path: Seq<char>) -> Seq<char> {
    "Name the backup folder '"@ + path + "' with a dash to ensure compatibility."@
}

/// Warns of a backup folder whose name a server could have.
pub fn clash_warning(path: &str) -> (r: Option<String>)
    ensures
        match r {
            Some(w) => proper(path@) && w@ == clash_text(path@),
            None => !proper(path@),
        },
{
    if is_proper(path) {
        let mut w = "Name the backup folder '".to_owned();
        w.append(path);
        w.append("' with a dash to ensure compatibility.");
        Some(w)
    } else {
        None
    }
}

/// The folders of the daemon's own data never clash with the folder of a server:
/// no server can have such a name.
pub proof fn law_folders_never_clash(server: Seq<char>)
    requires
        proper(server),
    ensures
        server != CLOUD_BACKUP_DIR@,
        server != XUI_BACKUP_DIR@,
        server != "Ansible-Files"@,
{
    reveal_strlit("Cloud-Backups");
    reveal_strlit("Xui-Backups");
    reveal_strlit("Ansible-Files");
    assert("Cloud-Backups"@[5] == '-');
    assert("Xui-Backups"@[3] == '-');
    assert("Ansible-Files"@[7] == '-');
}

/// The Ansible configuration with which all runs are made.
pub const ANSIBLE_CFG_TEXT: &'static str = "[defaults]\nhost_key_checking = False\nretry_files_enabled = False\nstdout_callback = quiet_success\ncallback_plugins = ./callback_plugins\nnocows = 1\n\n[ssh_connection]\nssh_args = -o BatchMode=yes -o IdentitiesOnly=yes -o ControlMaster=auto -o ControlPersist=600s -o ConnectTimeout=10 -o ServerAliveInterval=15 -o ServerAliveCountMax=3 -o StrictHostKeyChecking=no -o UserKnownHostsFile=/dev/null";

// ---------------------------------------------------------------- the laws

/// The first line of a text is what stands before the first line feed, without a carriage
/// return at its end; a text without a line feed is one line.
pub proof fn law_first_line(a: Seq<char>, b: Seq<char>)
    requires
        forall|i: int| 0 <= i < a.len() ==> #[trigger] a[i] != '\n',
    ensures
        a.len() > 0 ==> first_line_of(a) == Some(a),
        a.len() == 0 || a.last() != '\r' ==> first_line_of(a + "\n"@ + b) == Some(a),
        a.len() > 0 && a.last() == '\r' ==> first_line_of(a + "\n"@ + b) == Some(a.drop_last()),
        first_line_of(Seq::empty()) is None,
{
    reveal_strlit("\n");
    let p = "\n"@;
    let s = a + p + b;
    let n = a.len() as int;
    assert(s.subrange(n, n + 1) =~= p);
    assert forall|k: int| 0 <= k < n implies !occurs_at(s, p, k) by {
        assert(s.subrange(k, k + 1)[0] == a[k]);
    }
    lemma_position(s, p, 0, n);
    assert(s.take(n) =~= a);
    if n > 0 {
        assert(s[n - 1] == a.last());
        assert(s.take(n - 1) =~= a.drop_last());
        assert forall|k: int| 0 <= k < n implies !occurs_at(a, p, k) by {
            if occurs_at(a, p, k) {
                assert(a.subrange(k, k + 1)[0] == a[k]);
            }
        }
        lemma_position(a, p, 0, n);
        assert(a.take(n) =~= a);
    }
}

proof fn lemma_word_end_is(w: Seq<char>, rest: Seq<char>, i: int)
    requires
        0 <= i <= w.len(),
        forall|j: int| 0 <= j < w.len() ==> !is_white(#[trigger] w[j]),
        rest.len() > 0 ==> is_white(rest[0]),
    ensures
        word_end(w + rest, i) == w.len(),
    decreases w.len() - i,
{
    if i < w.len() {
        assert((w + rest)[i] == w[i]);
        lemma_word_end_is(w, rest, i + 1);
    } else if rest.len() > 0 {
        assert((w + rest)[i] == rest[0]);
    }
}

proof fn lemma_word_end_shift(s: Seq<char>, d: int, i: int)
    requires
        0 <= d <= i <= s.len(),
    ensures
        word_end(s, i) == word_end(s.skip(d), i - d) + d,
    decreases s.len() - i,
{
    if i < s.len() && !is_white(s[i]) {
        lemma_word_end_shift(s, d, i + 1);
    }
}

proof fn lemma_nth_shift(s: Seq<char>, d: int, i: int, n: nat)
    requires
        0 <= d <= i <= s.len(),
    ensures
        nth_word(s, i, n) == nth_word(s.skip(d), i - d, n),
    decreases s.len() - i,
{
    if i < s.len() {
        assert(s.skip(d)[i - d] == s[i]);
        if is_white(s[i]) {
            lemma_nth_shift(s, d, i + 1, n);
        } else {
            lemma_word_end(s, i);
            lemma_word_end_shift(s, d, i);
            if n == 0 {
                assert(s.subrange(i, word_end(s, i)) =~= s.skip(d).subrange(
                    i - d,
                    word_end(s.skip(d), i - d),
                ));
            } else {
                lemma_nth_shift(s, d, word_end(s, i), (n - 1) as nat);
            }
        }
    }
}

proof fn lemma_digit_shift(s: Seq<char>, d: int, i: int)
    requires
        0 <= d <= i <= s.len(),
    ensures
        digit_word(s, i) == digit_word(s.skip(d), i - d),
    decreases s.len() - i,
{
    if i < s.len() {
        assert(s.skip(d)[i - d] == s[i]);
        if is_white(s[i]) {
            lemma_digit_shift(s, d, i + 1);
        } else {
            lemma_word_end(s, i);
            lemma_word_end_shift(s, d, i);
            if is_digit(s[i]) {
                assert(s.subrange(i, word_end(s, i)) =~= s.skip(d).subrange(
                    i - d,
                    word_end(s.skip(d), i - d),
                ));
            } else {
                lemma_digit_shift(s, d, word_end(s, i));
            }
        }
    }
}

/// The words of a line are what white space separates: white space before a line changes
/// none of them, its first word is what stands before the next white space, and the others
/// are the words of the rest.
pub proof fn law_words_of_a_line(c: char, w: Seq<char>, rest: Seq<char>, n: nat)
    requires
        w.len() > 0,
        forall|j: int| 0 <= j < w.len() ==> !is_white(#[trigger] w[j]),
        rest.len() > 0 ==> is_white(rest[0]),
    ensures
        is_white(c) ==> nth_word(seq![c] + rest, 0, n) == nth_word(rest, 0, n),
        nth_word(w + rest, 0, 0) == Some(w),
        nth_word(w + rest, 0, n + 1) == nth_word(rest, 0, n),
        nth_word(Seq::empty(), 0, n) is None,
{
    let s = w + rest;
    lemma_word_end_is(w, rest, 0);
    assert(s[0] == w[0]);
    assert(s.subrange(0, w.len() as int) =~= w);
    assert(s.skip(w.len() as int) =~= rest);
    lemma_nth_shift(s, w.len() as int, w.len() as int, n);
    let t = seq![c] + rest;
    if is_white(c) {
        assert(t[0] == c);
        assert(t.skip(1) =~= rest);
        lemma_nth_shift(t, 1, 1, n);
    }
}

/// Of the words of a line the first one is taken that begins with a digit.
pub proof fn law_first_word_with_a_digit(c: char, w: Seq<char>, rest: Seq<char>)
    requires
        w.len() > 0,
        forall|j: int| 0 <= j < w.len() ==> !is_white(#[trigger] w[j]),
        rest.len() > 0 ==> is_white(rest[0]),
    ensures
        is_white(c) ==> digit_word(seq![c] + rest, 0) == digit_word(rest, 0),
        is_digit(w[0]) ==> digit_word(w + rest, 0) == Some(w),
        !is_digit(w[0]) ==> digit_word(w + rest, 0) == digit_word(rest, 0),
        digit_word(Seq::empty(), 0) is None,
{
    let s = w + rest;
    lemma_word_end_is(w, rest, 0);
    assert(s[0] == w[0]);
    assert(s.subrange(0, w.len() as int) =~= w);
    assert(s.skip(w.len() as int) =~= rest);
    lemma_digit_shift(s, w.len() as int, w.len() as int);
    let t = seq![c] + rest;
    if is_white(c) {
        assert(t[0] == c);
        assert(t.skip(1) =~= rest);
        lemma_digit_shift(t, 1, 1);
    }
}

/// The newer form of the version of Ansible is what stands between `core ` and the next
/// closing bracket.
pub proof fn law_core_version(a: Seq<char>, v: Seq<char>, b: Seq<char>)
    requires
        forall|i: int| 0 <= i < a.len() ==> !occurs_at(a + "core "@ + v + "]"@ + b, "core "@, i),
        forall|i: int| 0 <= i ==> !occurs_at(v + "]"@ + b, "core "@, i),
        forall|i: int| 0 <= i < v.len() ==> #[trigger] v[i] != ']',
    ensures
        core_part(a + "core "@ + v + "]"@ + b) == Some(trimmed(v)),
{
    reveal_strlit("core ");
    reveal_strlit("]");
    let p = "core "@;
    let line = a + p + v + "]"@ + b;
    let n = a.len() as int;
    let rest = v + "]"@ + b;
    assert(line.subrange(n, n + 5) =~= p);
    assert(occurs_at(line, p, n));
    lemma_position(line, p, 0, n);
    assert(line.skip(n + 5) =~= rest);
    assert forall|k: int| 0 <= k < rest.len() implies !occurs_at(rest, p, k) by {
        assert(!occurs_at(v + "]"@ + b, "core "@, k));
    }
    lemma_position(rest, p, 0, rest.len() as int);
    assert(rest.take(rest.len() as int) =~= rest);
    let e = v.len() as int;
    assert(rest.subrange(e, e + 1) =~= "]"@);
    assert forall|k: int| 0 <= k < e implies !occurs_at(rest, "]"@, k) by {
        if occurs_at(rest, "]"@, k) {
            assert(rest.subrange(k, k + 1)[0] == v[k]);
        }
    }
    lemma_position(rest, "]"@, 0, e);
    assert(rest.take(e) =~= v);
}

/// The version that Ansible reports is read from its first line: in the newer form where
/// it has that, and otherwise as the first word that begins with a digit.
pub proof fn law_ansible_version_is_in_the_first_line(stdout: Seq<char>, line: Seq<char>)
    ensures
        first_line_of(stdout) is None ==> ansible_version_of(stdout) is None,
        first_line_of(stdout) == Some(line) && core_part(line) is Some ==> ansible_version_of(
            stdout,
        ) == core_part(line),
        first_line_of(stdout) == Some(line) && core_part(line) is None ==> ansible_version_of(
            stdout,
        ) == digit_word(line, 0),
        (forall|i: int| 0 <= i < line.len() ==> !occurs_at(line, "core "@, i)) ==> core_part(
            line,
        ) is None,
        first_line_of(stdout) is None ==> xray_version_of(stdout) is None,
        first_line_of(stdout) == Some(line) ==> xray_version_of(stdout) == nth_word(line, 0, 1),
{
    if forall|i: int| 0 <= i < line.len() ==> !occurs_at(line, "core "@, i) {
        lemma_position(line, "core "@, 0, line.len() as int);
    }
}

/// Ansible is accepted exactly where it reports a version and that is not before 2.19.0;
/// otherwise the fault says what is wrong.
pub proof fn law_ansible_is_recent(stdout: Seq<char>)
    ensures
        ansible_fault(None) is Some,
        ansible_version_of(stdout) is None ==> ansible_fault(Some(stdout)) == Some(
            "Could not parse version from ansible --version output. Is Ansible properly installed?"@,
        ),
        ansible_version_of(stdout) is Some ==> (ansible_fault(Some(stdout)) is None <==> !precedes(
            effective_version(ansible_version_of(stdout)->Some_0),
            "2.19.0"@,
        )),
        ansible_fault(Some(stdout)) is Some && ansible_version_of(stdout) is Some ==> ansible_fault(
            Some(stdout),
        ) == Some("Ansible must be upgraded to at least 2.19.0."@),
{
}

/// A version counts as it is reported, with a third number where it has only two, and as
/// the oldest one where it is none.
pub proof fn law_versions_are_completed(v: Seq<char>)
    ensures
        is_version(v) ==> effective_version(v) == v,
        !is_version(v) && is_version(v + ".0"@) ==> effective_version(v) == v + ".0"@,
        !is_version(v) && !is_version(v + ".0"@) ==> effective_version(v) == "0.0.0"@,
{
}

/// Xray is accepted exactly where its three files exist and can be read, and where it
/// reports a version that is not before 26.0.0.
pub proof fn law_xray_is_recent(f: XrayFiles, stdout: Seq<char>)
    ensures
        xray_files_fault(f) is None <==> f.bin.exists && f.bin.readable && f.geoip.exists
            && f.geoip.readable && f.geosite.exists && f.geosite.readable,
        xray_fault(f, None) is Some,
        xray_fault(f, Some(stdout)) is None <==> xray_files_fault(f) is None && xray_version_of(
            stdout,
        ) is Some && !precedes(
            effective_version(xray_version_of(stdout)->Some_0),
            "26.0.0"@,
        ),
        xray_files_fault(f) is Some ==> xray_fault(f, Some(stdout)) == xray_files_fault(f),
        xray_files_fault(f) is None && xray_version_of(stdout) is None ==> xray_fault(
            f,
            Some(stdout),
        ) == Some("Xray doesn't report its version."@),
{
}

} // verus!
