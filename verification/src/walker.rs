//! What the files of one process say: who it is, and which descriptors it holds.

use vstd::prelude::*;
use vstd::string::StrSliceExecFns;
use crate::model::FdRef;
use crate::model::ProcessInfo;
use crate::text::ascii_bytes;
use crate::text::copy_of;
use crate::text::find_byte;
use crate::text::find_non_blank;
use crate::text::first_byte;
use crate::text::has_prefix;
use crate::text::lines;
use crate::text::lines_from;
use crate::text::next_line;
use crate::text::parse_decimal;
use crate::text::radix_value;
use crate::text::reads_as;
use crate::text::skip_blanks;
use crate::text::starts_with;
use crate::text::word;
use crate::text::word_bounds;

verus! {

/// The number that a directory entry is named by, if its name is decimal digits and nothing
/// else and the number fits.
pub open spec fn name_number(name: Seq<u8>) -> Option<i32> {
    if reads_as(name, 10, 0x7fff_ffff) {
        Some(radix_value(name, 10) as i32)
    } else {
        None
    }
}

/// Reads the number that a directory entry is named by: a process id under the processes
/// root, a descriptor number in a descriptor directory.
pub fn numeric_name(name: &[u8]) -> (r: Option<i32>)
    ensures
        r == name_number(name@),
{
    match parse_decimal(name, 0x7fff_ffff) {
        Some(n) => Some(n as i32),
        None => None,
    }
}

/// The first of the lines that begins with the given bytes.
pub open spec fn first_with_prefix(ls: Seq<Seq<u8>>, p: Seq<u8>) -> Option<Seq<u8>>
    decreases ls.len(),
{
    if ls.len() == 0 {
        None
    } else if has_prefix(ls[0], p) {
        Some(ls[0])
    } else {
        first_with_prefix(ls.drop_first(), p)
    }
}

/// The real uid that a status file gives: the first number on its first `Uid:` line.
pub open spec fn status_uid(status: Seq<u8>) -> Option<u32> {
    match first_with_prefix(lines(status), ascii_bytes("Uid:"@)) {
        Some(line) => match word(line.skip(4), 0) {
            Some(w) => if reads_as(w, 10, 0xffff_ffff) {
                Some(radix_value(w, 10) as u32)
            } else {
                None
            },
            None => None,
        },
        None => None,
    }
}

/// Reads the real uid from the contents of a status file.
pub fn read_status_uid(status: &[u8]) -> (r: Option<u32>)
    ensures
        r == status_uid(status@),
{
    proof {
        reveal_strlit("Uid:");
    }
    let mut pos: usize = 0;
    while pos < status.len()
        invariant
            pos <= status@.len(),
            "Uid:"@.len() == 4,
            "Uid:".is_ascii(),
            first_with_prefix(lines(status@), ascii_bytes("Uid:"@)) == first_with_prefix(
                lines_from(status@, pos as int),
                ascii_bytes("Uid:"@),
            ),
        decreases status@.len() - pos,
    {
        let (end, next) = next_line(status, pos);
        let line = &status[pos..end];
        if starts_with(line, "Uid:") {
            let rest = &line[4..line.len()];
            assert(rest@ == line@.skip(4));
            return match word_bounds(rest, 0) {
                Some((a, b)) => match parse_decimal(&rest[a..b], 0xffff_ffff) {
                    Some(uid) => Some(uid as u32),
                    None => None,
                },
                None => None,
            };
        }
        pos = next;
    }
    None
}

/// The command name that a comm file gives: its contents without the line feed at the end.
pub open spec fn comm_name(comm: Seq<char>) -> Seq<char> {
    if comm.len() > 0 && comm.last() == '\n' {
        comm.drop_last()
    } else {
        comm
    }
}

/// Reads the command name from the contents of a comm file.
pub fn read_comm(comm: &str) -> (r: String)
    ensures
        r@ == comm_name(comm@),
{
    let n = comm.unicode_len();
    if n > 0 && comm.get_char(n - 1) == '\n' {
        comm.substring_char(0, n - 1).to_owned()
    } else {
        comm.to_owned()
    }
}

/// Who a process is, from the name of its directory and the contents of its status and comm
/// files. A file that could not be read is `None`, and then there is no process to report.
pub fn process_info(dir_name: &[u8], status: Option<&[u8]>, comm: Option<&str>) -> (r: Option<
    ProcessInfo,
>)
    ensures
        r is Some == (name_number(dir_name@) is Some && status is Some && comm is Some
            && status_uid(status->0@) is Some),
        r matches Some(info) ==> info.pid == name_number(dir_name@)->0 && info.uid == status_uid(
            status->0@,
        )->0 && info.comm@ == comm_name(comm->0@),
{
    let pid = match numeric_name(dir_name) {
        Some(p) => p,
        None => {
            return None;
        },
    };
    let uid = match status {
        Some(s) => match read_status_uid(s) {
            Some(u) => u,
            None => {
                return None;
            },
        },
        None => {
            return None;
        },
    };
    match comm {
        Some(c) => Some(ProcessInfo { pid, uid, comm: read_comm(c) }),
        None => None,
    }
}

/// The key and the value that a line of an information file gives: the key is what stands
/// before the first colon, the value what follows the blanks behind it.
pub open spec fn info_field(line: Seq<u8>) -> Option<(Seq<u8>, Seq<u8>)> {
    let colon = first_byte(line, 58, 0);
    if colon < line.len() {
        Some((line.take(colon), line.skip(skip_blanks(line, colon + 1))))
    } else {
        None
    }
}

/// The fields that the lines give, in order; a line without a colon gives none.
pub open spec fn info_fields(ls: Seq<Seq<u8>>) -> Seq<(Seq<u8>, Seq<u8>)>
    decreases ls.len(),
{
    if ls.len() == 0 {
        Seq::empty()
    } else {
        match info_field(ls[0]) {
            Some(f) => seq![f] + info_fields(ls.drop_first()),
            None => info_fields(ls.drop_first()),
        }
    }
}

/// The fields of a list as sequences of bytes.
pub open spec fn fields_view(fields: Seq<(Vec<u8>, Vec<u8>)>) -> Seq<(Seq<u8>, Seq<u8>)> {
    fields.map_values(|f: (Vec<u8>, Vec<u8>)| (f.0@, f.1@))
}

/// Reads the fields of an information file.
pub fn read_fdinfo(content: &[u8]) -> (r: Vec<(Vec<u8>, Vec<u8>)>)
    ensures
        fields_view(r@) == info_fields(lines(content@)),
{
    let mut fields: Vec<(Vec<u8>, Vec<u8>)> = Vec::new();
    let mut pos: usize = 0;
    assert(fields_view(fields@) =~= Seq::empty());
    while pos < content.len()
        invariant
            pos <= content@.len(),
            info_fields(lines(content@)) == fields_view(fields@) + info_fields(
                lines_from(content@, pos as int),
            ),
        decreases content@.len() - pos,
    {
        let (end, next) = next_line(content, pos);
        let line = &content[pos..end];
        let colon = find_byte(line, 58, 0);
        if colon < line.len() {
            let from = find_non_blank(line, colon + 1);
            let key = copy_of(&line[0..colon]);
            let value = copy_of(&line[from..line.len()]);
            let ghost before = fields@;
            let ghost f = (key@, value@);
            fields.push((key, value));
            proof {
                assert(fields_view(fields@) =~= fields_view(before).push(f));
                let rest = info_fields(lines_from(content@, next as int));
                assert(fields_view(before) + (seq![f] + rest) =~= fields_view(before).push(f)
                    + rest);
            }
        }
        pos = next;
    }
    assert(fields_view(fields@) + Seq::empty() =~= fields_view(fields@));
    fields
}

/// What was read of one entry of a descriptor directory: its name, the target of its link
/// and the contents of its information file, each `None` where the read failed.
#[derive(Clone, Debug, PartialEq, Eq)]
pub struct RawFd {
    pub name: Vec<u8>,
    pub link: Option<Vec<u8>>,
    pub fdinfo: Option<Vec<u8>>,
}

/// The fields that go with a descriptor: those of its information file, or none where the
/// file could not be read.
pub open spec fn raw_fields(fdinfo: Option<Vec<u8>>) -> Seq<(Seq<u8>, Seq<u8>)> {
    match fdinfo {
        Some(content) => info_fields(lines(content@)),
        None => Seq::empty(),
    }
}

/// Whether an entry of a descriptor directory gives a descriptor: its name is a number and
/// its link was read.
pub open spec fn gives_fd(raw: RawFd) -> bool {
    name_number(raw.name@) is Some && raw.link is Some
}

/// The descriptor that an entry of a descriptor directory gives. An entry whose name is no
/// number or whose link could not be read gives none; one whose information file could not be
/// read gives a descriptor without fields.
pub fn fd_ref(pid: i32, raw: &RawFd) -> (r: Option<FdRef>)
    ensures
        r is Some == gives_fd(*raw),
        r matches Some(fd) ==> fd.pid == pid && fd.fd_num == name_number(raw.name@)->0
            && fd.link_target@ == raw.link->0@ && fields_view(fd.fdinfo@) == raw_fields(
            raw.fdinfo,
        ),
{
    let fd_num = match numeric_name(raw.name.as_slice()) {
        Some(n) => n,
        None => {
            return None;
        },
    };
    let link_target = match &raw.link {
        Some(l) => copy_of(l.as_slice()),
        None => {
            return None;
        },
    };
    let fdinfo = match &raw.fdinfo {
        Some(content) => read_fdinfo(content.as_slice()),
        None => {
            let empty: Vec<(Vec<u8>, Vec<u8>)> = Vec::new();
            assert(fields_view(empty@) =~= Seq::empty());
            empty
        },
    };
    Some(FdRef { pid, fd_num, link_target, fdinfo })
}

/// How often at most a read is tried.
pub const READ_ATTEMPTS: usize = 3;

/// Whether an error code of the system tells of a failure that may pass: no such file or
/// directory, no such process, or a stale file handle, as they come when a process ends or
/// its id is given to another while it is read.
pub open spec fn is_transient(code: i32) -> bool {
    code == 2 || code == 3 || code == 116
}

/// Tells whether a read that failed is tried again: only after a failure that may pass, and
/// only while it was tried fewer than `READ_ATTEMPTS` times. `attempts` counts the tries so
/// far, the failed one included; a failure without a code of the system is final.
pub fn retries_read(attempts: usize, os_error: Option<i32>) -> (r: bool)
    ensures
        r == (attempts < READ_ATTEMPTS && os_error is Some && is_transient(os_error->0)),
{
    match os_error {
        Some(code) => attempts < READ_ATTEMPTS && (code == 2 || code == 3 || code == 116),
        None => false,
    }
}

} // verus!
