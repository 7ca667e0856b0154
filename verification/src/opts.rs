//! The filters that a caller can set, and the checks on the values given for them.

use vstd::prelude::*;
use vstd::string::StringExecFns;
use vstd::string::StrSliceExecFns;
use regex::Regex;
use crate::model::FDType;
use crate::model::ProcessInfo;
use crate::trusted::escape_text;
use crate::trusted::lookup_uid;
use crate::trusted::regex_accepts;
use crate::trusted::regex_matches;
use crate::trusted::regex_plain;
use crate::trusted::same_ignoring_case;
use crate::model::FDTypeView;
use crate::trusted::regex_source;

verus! {

/// The socket domains that can be asked for.
#[derive(Clone, Copy, Debug, PartialEq, Eq, Structural)]
pub enum FDSocketDomainFilter {
    Unix,
    Inet4,
    Inet6,
    Netlink,
    Packet,
}

/// The socket types that can be asked for.
#[derive(Clone, Copy, Debug, PartialEq, Eq, Structural)]
pub enum FDSocketTypeFilter {
    Stream,
    Dgram,
    Raw,
    SeqPacket,
}

/// The filters and output options of one run. A filter that is not set lets everything pass.
#[derive(Clone, Debug)]
pub struct Args {
    pub pid: Option<i32>,
    pub uid: Option<u32>,
    pub cmd: Option<Regex>,
    pub type_: Option<FDType>,
    pub socket_domain: Option<FDSocketDomainFilter>,
    pub socket_type: Option<FDSocketTypeFilter>,
    pub socket_state: Option<String>,
    pub port: Option<u16>,
    pub src_port: Option<u16>,
    pub dst_port: Option<u16>,
    pub host: Option<String>,
    pub src_host: Option<String>,
    pub dst_host: Option<String>,
    pub no_dns: bool,
    pub json: bool,
    pub pid_only: bool,
}

impl Default for Args {
    /// No filter set and no output option chosen.
    fn default() -> (r: Args)
        ensures
            r.pid is None,
            r.uid is None,
            r.cmd is None,
            r.type_ is None,
            r.socket_domain is None,
            r.socket_type is None,
            r.socket_state is None,
            r.port is None,
            r.src_port is None,
            r.dst_port is None,
            r.host is None,
            r.src_host is None,
            r.dst_host is None,
            !r.no_dns,
            !r.json,
            !r.pid_only,
    {
        Args {
            pid: None,
            uid: None,
            cmd: None,
            type_: None,
            socket_domain: None,
            socket_type: None,
            socket_state: None,
            port: None,
            src_port: None,
            dst_port: None,
            host: None,
            src_host: None,
            dst_host: None,
            no_dns: false,
            json: false,
            pid_only: false,
        }
    }
}

impl Args {
    /// Whether the process passes the filters on pid and uid.
    pub open spec fn ids_pass(&self, process: &ProcessInfo) -> bool {
        &&& self.pid matches Some(pid) ==> pid == process.pid
        &&& self.uid matches Some(uid) ==> uid == process.uid
    }

    /// Whether the expression of the command filter, if there is one, was made by
    /// `Regex::new`, as `validate_cmd` makes it.
    pub open spec fn plain_cmd(&self) -> bool {
        self.cmd matches Some(re) ==> regex_plain(re)
    }

    /// Whether the process passes the filters on pid, uid and command name, the command
    /// name by the pattern of the command filter.
    pub open spec fn process_passes(&self, process: &ProcessInfo) -> bool {
        &&& self.ids_pass(process)
        &&& self.cmd matches Some(re) ==> regex_matches(regex_source(re), process.comm@)
    }

    /// Tells whether the process passes the filters on pid, uid and command name. Of an
    /// expression that a builder made with options of its own, the pattern alone does not
    /// say what it matches; then only the filters on pid and uid are known to hold of a
    /// process that passes.
    pub fn filter_process(&self, process: &ProcessInfo) -> (r: bool)
        ensures
            self.plain_cmd() ==> r == self.process_passes(process),
            r ==> self.ids_pass(process),
    {
        if let Some(pid) = self.pid {
            if pid != process.pid {
                return false;
            }
        }
        if let Some(uid) = self.uid {
            if uid != process.uid {
                return false;
            }
        }
        if let Some(re) = &self.cmd {
            if !re.is_match(process.comm.as_str()) {
                return false;
            }
        }
        true
    }
}

/// Whether the value is written between two slashes, which marks a regular expression.
pub open spec fn is_wrapped(s: Seq<char>) -> bool {
    s.len() >= 2 && s[0] == '/' && s.last() == '/'
}

/// The pattern that a value of the command filter stands for: what stands between the two
/// slashes where it is wrapped in them, else the value itself as a literal, anchored at both
/// ends.
pub open spec fn cmd_pattern(s: Seq<char>) -> Seq<char> {
    if is_wrapped(s) {
        s.subrange(1, s.len() - 1)
    } else {
        seq!['^'] + escape_text(s) + seq!['$']
    }
}

/// The pattern text for a value of the command filter.
pub fn cmd_pattern_text(s: &str) -> (r: String)
    ensures
        r@ == cmd_pattern(s@),
{
    let n = s.unicode_len();
    if n >= 2 && s.get_char(0) == '/' && s.get_char(n - 1) == '/' {
        s.substring_char(1, n - 1).to_owned()
    } else {
        let escaped = regex::escape(s);
        let mut pattern = String::new();
        pattern.push('^');
        pattern.append(escaped.as_str());
        pattern.push('$');
        assert(pattern@ =~= seq!['^'] + escape_text(s@) + seq!['$']);
        pattern
    }
}

/// What the command filter makes of a compiled pattern: the expression itself, or the
/// complaint that the value is no regular expression.
pub fn cmd_result(compiled: Result<Regex, regex::Error>) -> (r: Result<Regex, String>)
    ensures
        r is Ok == compiled is Ok,
        r matches Ok(re) ==> compiled == Ok::<Regex, regex::Error>(re),
        r matches Err(e) ==> e@ == "invalid regex"@,
{
    match compiled {
        Ok(re) => Ok(re),
        Err(_) => Err("invalid regex".to_owned()),
    }
}

/// Checks a value given for the command filter and compiles its pattern.
pub fn validate_cmd(s: &str) -> (r: Result<Regex, String>)
    ensures
        r is Ok == regex_accepts(cmd_pattern(s@)),
        r matches Ok(re) ==> regex_plain(re) && regex_source(re) == cmd_pattern(s@),
        r matches Err(e) ==> e@ == "invalid regex"@,
{
    let pattern = cmd_pattern_text(s);
    cmd_result(Regex::new(pattern.as_str()))
}

/// What the user filter makes of a lookup in the user database: the uid found, or the
/// complaint that there is no such user.
pub fn user_result(found: Option<u32>) -> (r: Result<u32, String>)
    ensures
        found matches Some(uid) ==> r == Ok::<u32, String>(uid),
        found is None ==> r is Err && r->Err_0@ == "invalid user"@,
{
    match found {
        Some(uid) => Ok(uid),
        None => Err("invalid user".to_owned()),
    }
}

/// Checks a user name given for the user filter and finds its uid. The user database of the
/// machine decides whether there is such a user, but for a name that holds a NUL character:
/// no user has such a name, and it is refused without a lookup.
pub fn validate_user(s: &str) -> (r: Result<u32, String>)
    ensures
        s@.contains('\0') ==> r is Err,
        r matches Err(e) ==> e@ == "invalid user"@,
{
    user_result(lookup_uid(s))
}

/// The type that a name stands for, whatever the case of its letters, if it is the name of
/// one of the types that can be asked for.
pub open spec fn named_type(name: Seq<char>) -> Option<FDTypeView> {
    if same_ignoring_case(name, "File"@) {
        Some(FDTypeView::File)
    } else if same_ignoring_case(name, "Dir"@) {
        Some(FDTypeView::Dir)
    } else if same_ignoring_case(name, "Pipe"@) {
        Some(FDTypeView::Pipe)
    } else if same_ignoring_case(name, "Socket"@) {
        Some(FDTypeView::Socket)
    } else if same_ignoring_case(name, "CharDev"@) {
        Some(FDTypeView::CharDev)
    } else if same_ignoring_case(name, "BlockDev"@) {
        Some(FDTypeView::BlockDev)
    } else if same_ignoring_case(name, "AnonInode"@) {
        Some(FDTypeView::AnonInode)
    } else {
        None
    }
}

/// Checks a value given for the type filter: it has to name one of the types.
pub fn validate_type(s: &str) -> (r: Result<FDType, String>)
    ensures
        r is Ok == named_type(s@) is Some,
        r matches Ok(t) ==> Some(t@) == named_type(s@),
        r matches Err(e) ==> e@ == "invalid type"@,
{
    if s.eq_ignore_ascii_case("File") {
        Ok(FDType::File)
    } else if s.eq_ignore_ascii_case("Dir") {
        Ok(FDType::Dir)
    } else if s.eq_ignore_ascii_case("Pipe") {
        Ok(FDType::Pipe)
    } else if s.eq_ignore_ascii_case("Socket") {
        Ok(FDType::Socket)
    } else if s.eq_ignore_ascii_case("CharDev") {
        Ok(FDType::CharDev)
    } else if s.eq_ignore_ascii_case("BlockDev") {
        Ok(FDType::BlockDev)
    } else if s.eq_ignore_ascii_case("AnonInode") {
        Ok(FDType::AnonInode)
    } else {
        Err("invalid type".to_owned())
    }
}

} // verus!
