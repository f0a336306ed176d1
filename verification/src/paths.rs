//! Where the supervisor keeps its files. Everything lies under one data
//! directory; nothing here touches the file system.

use vstd::prelude::*;

verus! {

/// The on-disk layout under one data directory.
#[derive(Debug, PartialEq, Eq)]
pub struct Paths {
    data_dir: String,
}

/// The path of the data directory that `layout` describes.
impl View for Paths {
    type V = Seq<char>;

    closed spec fn view(&self) -> Seq<char> {
        self.data_dir@
    }
}

/// `<data_dir>/pm3.pid`
pub open spec fn pid_file_path(data_dir: Seq<char>) -> Seq<char> {
    data_dir + "/pm3.pid"@
}

/// `<data_dir>/pm3.sock`
pub open spec fn socket_file_path(data_dir: Seq<char>) -> Seq<char> {
    data_dir + "/pm3.sock"@
}

/// `<data_dir>/logs`
pub open spec fn log_dir_path(data_dir: Seq<char>) -> Seq<char> {
    data_dir + "/logs"@
}

/// `<data_dir>/logs/<name>.out`
pub open spec fn stdout_log_path(data_dir: Seq<char>, name: Seq<char>) -> Seq<char> {
    data_dir + "/logs/"@ + name + ".out"@
}

/// `<data_dir>/logs/<name>.err`
pub open spec fn stderr_log_path(data_dir: Seq<char>, name: Seq<char>) -> Seq<char> {
    data_dir + "/logs/"@ + name + ".err"@
}

impl Paths {
    /// The layout under `base`.
    pub fn with_base(base: String) -> (paths: Paths)
        ensures
            paths@ == base@,
    {
        Paths { data_dir: base }
    }

    /// The layout under the directory the environment names, or else under
    /// the platform's default.
    pub fn resolve(env_override: Option<String>, platform_default: String) -> (paths: Paths)
        ensures
            paths@ == (match env_override {
                Some(dir) => dir@,
                None => platform_default@,
            }),
    {
        match env_override {
            Some(dir) => Paths { data_dir: dir },
            None => Paths { data_dir: platform_default },
        }
    }

    pub fn data_dir(&self) -> (path: String)
        ensures
            path@ == self@,
    {
        self.data_dir.clone()
    }

    pub fn pid_file(&self) -> (path: String)
        ensures
            path@ == pid_file_path(self@),
    {
        self.data_dir.clone().concat("/pm3.pid")
    }

    pub fn socket_file(&self) -> (path: String)
        ensures
            path@ == socket_file_path(self@),
    {
        self.data_dir.clone().concat("/pm3.sock")
    }

    pub fn log_dir(&self) -> (path: String)
        ensures
            path@ == log_dir_path(self@),
    {
        self.data_dir.clone().concat("/logs")
    }

    pub fn stdout_log(&self, name: &str) -> (path: String)
        ensures
            path@ == stdout_log_path(self@, name@),
    {
        self.data_dir.clone().concat("/logs/").concat(name).concat(".out")
    }

    pub fn stderr_log(&self, name: &str) -> (path: String)
        ensures
            path@ == stderr_log_path(self@, name@),
    {
        self.data_dir.clone().concat("/logs/").concat(name).concat(".err")
    }
}

impl Clone for Paths {
    fn clone(&self) -> (copy: Paths)
        ensures
            copy@ == self@,
    {
        Paths { data_dir: self.data_dir.clone() }
    }
}

} // verus!
