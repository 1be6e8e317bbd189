//! Where the daemon keeps its files.

use vstd::prelude::*;

use crate::constants::{
    ANSIBLE_DIR, CF_AUTH, CLOUD_CONFIG, PID_NAME, SOCKET_NAME,
};
use crate::text::{join_path, joined_path, opt_text};

verus! {

/// The directories of the daemon.
pub struct DaemonDirs {
    pub config_dir: String,
    pub data_dir: String,
    pub cache_dir: String,
    pub runtime_dir: String,
    pub state_dir: String,
}

#[verifier::ext_equal]
pub struct DirsView {
    pub config_dir: Seq<char>,
    pub data_dir: Seq<char>,
    pub cache_dir: Seq<char>,
    pub runtime_dir: Seq<char>,
    pub state_dir: Seq<char>,
}

impl View for DaemonDirs {
    type V = DirsView;

    open spec fn view(&self) -> DirsView {
        DirsView {
            config_dir: self.config_dir@,
            data_dir: self.data_dir@,
            cache_dir: self.cache_dir@,
            runtime_dir: self.runtime_dir@,
            state_dir: self.state_dir@,
        }
    }
}

/// The files by which a running daemon is known.
pub struct Daemon {
    pub pid_file: String,
    pub sock_file: String,
}

/// The directories, and the daemon that works in them.
pub struct WorkSpace {
    pub dirs: DaemonDirs,
    pub daemon: Daemon,
}

/// What the Cloudflare token file holds.
pub struct CFAuth {
    pub cloudflare_api_token: String,
}

impl Daemon {
    /// The daemon whose files stand in the runtime directory.
    pub fn new(runtime_dir: &str) -> (r: Self)
        ensures
            r.pid_file@ == joined_path(runtime_dir@, PID_NAME@),
            r.sock_file@ == joined_path(runtime_dir@, SOCKET_NAME@),
    {
        Daemon {
            pid_file: join_path(runtime_dir, PID_NAME),
            sock_file: join_path(runtime_dir, SOCKET_NAME),
        }
    }
}

/// What the system names as the directories of a user. The last two can be
/// missing.
pub struct UserDirs {
    pub config_dir: String,
    pub data_dir: String,
    pub cache_dir: String,
    pub runtime_dir: Option<String>,
    pub state_dir: Option<String>,
}

/// The directories of the system's own daemon.
pub open spec fn system_dirs() -> DirsView {
    DirsView {
        config_dir: "/etc/xcplane"@,
        data_dir: "/var/lib/xcplane"@,
        cache_dir: "/var/cache/xcplane"@,
        runtime_dir: "/run/xcplane"@,
        state_dir: "/var/log/xcplane"@,
    }
}

/// The directories for a user, or why there are none.
pub open spec fn dirs_of(uid: u32, user: Option<UserDirs>) -> Result<DirsView, Seq<char>> {
    if uid == 0 {
        Ok(system_dirs())
    } else {
        match user {
            None => Err("Couldn't determine XDG directories."@),
            Some(u) => match (u.runtime_dir, u.state_dir) {
                (None, _) => Err("Couldn't find a runtime directory for the user."@),
                (Some(_), None) => Err("Couldn't find a state directory for the user."@),
                (Some(r), Some(s)) => Ok(
                    DirsView {
                        config_dir: u.config_dir@,
                        data_dir: u.data_dir@,
                        cache_dir: u.cache_dir@,
                        runtime_dir: r@,
                        state_dir: s@,
                    },
                ),
            },
        }
    }
}

/// Chooses the directories: root works with those of the system, and any other
/// user with their own.
pub fn prepare_workspace(uid: u32, user: Option<UserDirs>) -> (r: Result<WorkSpace, String>)
    ensures
        match r {
            Ok(w) => {
                &&& dirs_of(uid, user) == Ok::<DirsView, Seq<char>>(w.dirs@)
                &&& w.daemon.pid_file@ == joined_path(w.dirs.runtime_dir@, PID_NAME@)
                &&& w.daemon.sock_file@ == joined_path(w.dirs.runtime_dir@, SOCKET_NAME@)
            },
            Err(e) => dirs_of(uid, user) == Err::<DirsView, Seq<char>>(e@),
        },
{
    let dirs = if uid == 0 {
        DaemonDirs {
            config_dir: "/etc/xcplane".to_owned(),
            data_dir: "/var/lib/xcplane".to_owned(),
            cache_dir: "/var/cache/xcplane".to_owned(),
            runtime_dir: "/run/xcplane".to_owned(),
            state_dir: "/var/log/xcplane".to_owned(),
        }
    } else {
        let u = match user {
            Some(u) => u,
            None => return Err("Couldn't determine XDG directories.".to_owned()),
        };
        let runtime_dir = match u.runtime_dir {
            Some(d) => d,
            None => return Err("Couldn't find a runtime directory for the user.".to_owned()),
        };
        let state_dir = match u.state_dir {
            Some(d) => d,
            None => return Err("Couldn't find a state directory for the user.".to_owned()),
        };
        DaemonDirs {
            config_dir: u.config_dir,
            data_dir: u.data_dir,
            cache_dir: u.cache_dir,
            runtime_dir,
            state_dir,
        }
    };
    let daemon = Daemon::new(dirs.runtime_dir.as_str());
    Ok(WorkSpace { dirs, daemon })
}

/// What is known of the files that must have been supplied.
pub struct RequiredFiles {
    pub config_exists: bool,
    pub auth_exists: bool,
    /// The token in the second one, or why it cannot be read; looked at only
    /// where both exist.
    pub token: Result<String, String>,
}

/// What is wrong with the required files.
pub open spec fn files_fault(dirs: DirsView, f: RequiredFiles) -> Option<Seq<char>> {
    if !f.config_exists || !f.auth_exists {
        Some("Supply the missing file."@)
    } else {
        match f.token {
            Err(e) => Some(e@),
            Ok(t) => if t@ == ""@ {
                Some(
                    "The CloudFlare token in "@ + joined_path(dirs.config_dir, CF_AUTH@)
                        + " is empty."@,
                )
            } else {
                None
            },
        }
    }
}

/// The file that is reported as missing, if any.
pub open spec fn missing_file(dirs: DirsView, f: RequiredFiles) -> Option<Seq<char>> {
    if !f.config_exists {
        Some(joined_path(dirs.config_dir, CLOUD_CONFIG@))
    } else if !f.auth_exists {
        Some(joined_path(dirs.config_dir, CF_AUTH@))
    } else {
        None
    }
}

/// Checks that the required files were supplied and that the token is not
/// empty. The second part of a failure is the path of the missing file.
pub fn validate_workspace(workspace: &WorkSpace, f: &RequiredFiles) -> (r: Result<
    (),
    (String, Option<String>),
>)
    ensures
        match r {
            Ok(_) => files_fault(workspace.dirs@, *f) is None,
            Err((e, path)) => files_fault(workspace.dirs@, *f) == Some(e@) && opt_text(path)
                == missing_file(workspace.dirs@, *f),
        },
{
    let dir = workspace.dirs.config_dir.as_str();
    if !f.config_exists {
        return Err(("Supply the missing file.".to_owned(), Some(join_path(dir, CLOUD_CONFIG))));
    }
    if !f.auth_exists {
        return Err(("Supply the missing file.".to_owned(), Some(join_path(dir, CF_AUTH))));
    }
    match &f.token {
        Err(e) => Err((e.clone(), None)),
        Ok(t) => {
            if crate::text::str_eq(t.as_str(), "") {
                let mut e = "The CloudFlare token in ".to_owned();
                let path = join_path(dir, CF_AUTH);
                e.append(path.as_str());
                e.append(" is empty.");
                Err((e, None))
            } else {
                Ok(())
            }
        },
    }
}

/// The path of the Ansible sources.
pub open spec fn ansible_path(dirs: DirsView) -> Seq<char> {
    joined_path(dirs.data_dir, ANSIBLE_DIR@)
}

pub fn ansible_dir(workspace: &WorkSpace) -> (r: String)
    ensures
        r@ == ansible_path(workspace.dirs@),
{
    join_path(workspace.dirs.data_dir.as_str(), ANSIBLE_DIR)
}


/// Root works with the directories of the system, and any other user with their own, all of
/// which must be known.
pub proof fn law_directories_of_users(uid: u32, user: Option<UserDirs>)
    ensures
        uid == 0 ==> dirs_of(uid, user) == Ok::<DirsView, Seq<char>>(
            DirsView {
                config_dir: "/etc/xcplane"@,
                data_dir: "/var/lib/xcplane"@,
                cache_dir: "/var/cache/xcplane"@,
                runtime_dir: "/run/xcplane"@,
                state_dir: "/var/log/xcplane"@,
            },
        ),
        uid != 0 ==> (dirs_of(uid, user) is Ok <==> user is Some
            && user->Some_0.runtime_dir is Some && user->Some_0.state_dir is Some),
        uid != 0 && dirs_of(uid, user) is Ok ==> ({
            let d = dirs_of(uid, user)->Ok_0;
            let u = user->Some_0;
            &&& d.config_dir == u.config_dir@
            &&& d.data_dir == u.data_dir@
            &&& d.cache_dir == u.cache_dir@
            &&& d.runtime_dir == u.runtime_dir->Some_0@
            &&& d.state_dir == u.state_dir->Some_0@
        }),
{
}

/// The files are accepted exactly where both exist and the token can be read and is not
/// empty; the one that is reported as missing is the first that does not exist.
pub proof fn law_required_files(dirs: DirsView, f: RequiredFiles)
    ensures
        files_fault(dirs, f) is None <==> f.config_exists && f.auth_exists && f.token is Ok
            && f.token->Ok_0@.len() > 0,
        !f.config_exists || !f.auth_exists ==> files_fault(dirs, f) == Some(
            "Supply the missing file."@,
        ),
        f.config_exists && f.auth_exists && f.token is Err ==> files_fault(dirs, f) == Some(
            f.token->Err_0@,
        ),
        !f.config_exists ==> missing_file(dirs, f) == Some(
            joined_path(dirs.config_dir, "cloud.toml"@),
        ),
        f.config_exists && !f.auth_exists ==> missing_file(dirs, f) == Some(
            joined_path(dirs.config_dir, "cf-auth.toml"@),
        ),
        f.config_exists && f.auth_exists ==> missing_file(dirs, f) is None,
{
    reveal_strlit("");
    assert(""@ =~= Seq::<char>::empty());
    if f.token is Ok && f.token->Ok_0@.len() == 0 {
        assert(f.token->Ok_0@ =~= ""@);
    }
}

} // verus!
