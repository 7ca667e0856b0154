//! Deciding what a descriptor is from the target of its link and its information file.

use vstd::prelude::*;
use crate::model::Endpoint;
use crate::model::EndpointView;
use crate::model::FDTarget;
use crate::model::FDTargetView;
use crate::model::FDType;
use crate::model::FDTypeView;
use crate::model::FdEntry;
use crate::model::FdEntryView;
use crate::model::FdRef;
use crate::model::ProcessInfo;
use crate::model::SocketDomain;
use crate::model::SocketInfo;
use crate::model::SocketInfoView;
use crate::model::SocketKind;
use crate::model::SocketState;
use crate::sockets::keyed_by_inode;
use crate::sockets::SocketTable;
use crate::text::ascii_bytes;
use crate::text::bytes_text;
use crate::text::copy_of;
use crate::text::find_byte;
use crate::text::first_byte;
use crate::text::has_prefix;
use crate::text::is_text;
use crate::text::parse_decimal;
use crate::text::parse_octal;
use crate::text::radix_value;
use crate::text::reads_as;
use crate::text::starts_with;
use crate::text::text_of_bytes;
use crate::walker::fields_view;

verus! {

/// The number between position `from` and a closing bracket at the end of the target.
pub open spec fn bracketed_number(target: Seq<u8>, from: int) -> Option<u64> {
    if from < target.len() && target.last() == 93 && reads_as(
        target.subrange(from, target.len() - 1),
        10,
        0xffff_ffff_ffff_ffff,
    ) {
        Some(radix_value(target.subrange(from, target.len() - 1), 10) as u64)
    } else {
        None
    }
}

/// The inode of the socket that a target of the form `socket:[inode]` names.
pub open spec fn socket_inode(target: Seq<u8>) -> Option<u64> {
    if has_prefix(target, ascii_bytes("socket:["@)) {
        bracketed_number(target, 8)
    } else {
        None
    }
}

/// The inode of the pipe that a target of the form `pipe:[inode]` names.
pub open spec fn pipe_inode(target: Seq<u8>) -> Option<u64> {
    if has_prefix(target, ascii_bytes("pipe:["@)) {
        bracketed_number(target, 6)
    } else {
        None
    }
}

/// What is reported of a socket that no table lists: its inode, and nothing else.
pub open spec fn degraded(inode: u64) -> SocketInfoView {
    SocketInfoView {
        domain: SocketDomain::Other(0),
        kind: SocketKind::Other(0),
        state: SocketState::Unknown(0),
        local: EndpointView::Empty,
        remote: EndpointView::Empty,
        inode,
    }
}

/// Whether a socket is reported without what the tables would tell of it.
pub open spec fn is_degraded(info: SocketInfoView) -> bool {
    info.state is Unknown && info.local is Empty && info.remote is Empty
}

/// The value of the first field with the given key.
pub open spec fn field_value(fields: Seq<(Seq<u8>, Seq<u8>)>, key: Seq<u8>) -> Option<Seq<u8>>
    decreases fields.len(),
{
    if fields.len() == 0 {
        None
    } else if fields[0].0 == key {
        Some(fields[0].1)
    } else {
        field_value(fields.drop_first(), key)
    }
}

/// The flags that the descriptor was opened with: the `flags` field, which is in octal.
pub open spec fn open_flags(fields: Seq<(Seq<u8>, Seq<u8>)>) -> Option<u64> {
    match field_value(fields, ascii_bytes("flags"@)) {
        Some(v) => if reads_as(v, 8, 0xffff_ffff_ffff_ffff) {
            Some(radix_value(v, 8) as u64)
        } else {
            None
        },
        None => None,
    }
}

/// The letter for the access mode in the low two bits of the flags: read, write, or both.
/// The fourth value of the two bits is no access mode and has no letter.
pub open spec fn access_letter(flags: u64) -> Option<char> {
    if flags % 4 == 0 {
        Some('r')
    } else if flags % 4 == 1 {
        Some('w')
    } else if flags % 4 == 2 {
        Some('u')
    } else {
        None
    }
}

/// Whether the flags ask for appending: the bit of value 2000 in octal.
pub open spec fn appends(flags: u64) -> bool {
    (flags / 0o2000) % 2 == 1
}

/// Whether the flags say that a directory was opened: the bit of value 200000 in octal.
pub open spec fn opens_directory(flags: u64) -> bool {
    (flags / 0o200000) % 2 == 1
}

/// The mode that the flags stand for: the access letter, and an `a` behind it for appending.
pub open spec fn mode_of(flags: u64) -> Option<Seq<char>> {
    match access_letter(flags) {
        Some(c) => if appends(flags) {
            Some(seq![c, 'a'])
        } else {
            Some(seq![c])
        },
        None => None,
    }
}

/// The mode of a descriptor with the given fields; none without readable flags.
pub open spec fn fd_mode(fields: Seq<(Seq<u8>, Seq<u8>)>) -> Option<Seq<char>> {
    match open_flags(fields) {
        Some(flags) => mode_of(flags),
        None => None,
    }
}

/// What stands before the first colon of a target, or all of it.
pub open spec fn raw_prefix(target: Seq<u8>) -> Seq<u8> {
    target.take(first_byte(target, 58, 0))
}

/// Whether the target is an absolute path.
pub open spec fn is_absolute(target: Seq<u8>) -> bool {
    target.len() > 0 && target[0] == 47
}

/// The type of a descriptor, by the first of these that holds of its target: it names a
/// socket; it names a pipe; it begins with `anon_inode:`; it is an absolute path, a
/// directory where the flags say so and else a file; none of these.
pub open spec fn type_of(target: Seq<u8>, flags: Option<u64>) -> FDTypeView {
    if socket_inode(target) is Some {
        FDTypeView::Socket
    } else if pipe_inode(target) is Some {
        FDTypeView::Pipe
    } else if has_prefix(target, ascii_bytes("anon_inode:"@)) {
        FDTypeView::AnonInode
    } else if is_absolute(target) {
        if flags matches Some(f) && opens_directory(f) {
            FDTypeView::Dir
        } else {
            FDTypeView::File
        }
    } else {
        FDTypeView::Other(bytes_text(raw_prefix(target)))
    }
}

/// What a descriptor points at, by the same order of cases. A socket that the table lists
/// comes with what the table tells of it, any other with its inode alone.
pub open spec fn target_of(target: Seq<u8>, table: Map<u64, SocketInfoView>) -> FDTargetView {
    if socket_inode(target) is Some {
        FDTargetView::Socket(
            if table.contains_key(socket_inode(target)->0) {
                table[socket_inode(target)->0]
            } else {
                degraded(socket_inode(target)->0)
            },
        )
    } else if pipe_inode(target) is Some {
        FDTargetView::PipeInode(pipe_inode(target)->0)
    } else if has_prefix(target, ascii_bytes("anon_inode:"@)) {
        FDTargetView::AnonInode(bytes_text(target.skip(11)), 0)
    } else if is_absolute(target) {
        FDTargetView::Path(target)
    } else {
        FDTargetView::Raw(target)
    }
}

/// The entry that is reported for a descriptor of a process.
pub open spec fn entry_of(
    process: ProcessInfo,
    user: Seq<char>,
    fd_num: i32,
    target: Seq<u8>,
    fields: Seq<(Seq<u8>, Seq<u8>)>,
    table: Map<u64, SocketInfoView>,
) -> FdEntryView {
    FdEntryView {
        pid: process.pid,
        user,
        name: process.comm@,
        fd_type: type_of(target, open_flags(fields)),
        fd: Some(fd_num),
        mode: fd_mode(fields),
        target: target_of(target, table),
    }
}

/// An entry is of type socket exactly when it points at a socket. Its socket then carries
/// the inode that the link names, and it is what the table lists under that inode or, where
/// the table lists nothing, degraded.
pub proof fn lemma_socket_entry(
    process: ProcessInfo,
    user: Seq<char>,
    fd_num: i32,
    target: Seq<u8>,
    fields: Seq<(Seq<u8>, Seq<u8>)>,
    table: Map<u64, SocketInfoView>,
)
    requires
        keyed_by_inode(table),
    ensures
        ({
            let e = entry_of(process, user, fd_num, target, fields, table);
            &&& e.fd_type is Socket <==> e.target is Socket
            &&& e.target matches FDTargetView::Socket(info) ==> {
                &&& socket_inode(target) == Some(info.inode)
                &&& table.contains_key(info.inode) ==> info == table[info.inode]
                &&& !table.contains_key(info.inode) ==> info == degraded(info.inode)
                    && is_degraded(info)
            }
        }),
{
}

/// With no socket listed, every socket entry is degraded.
pub proof fn lemma_empty_table_degrades(target: Seq<u8>)
    ensures
        target_of(target, Map::empty()) matches FDTargetView::Socket(info) ==> is_degraded(info),
{
}

fn read_bracketed(target: &[u8], from: usize) -> (r: Option<u64>)
    ensures
        r == bracketed_number(target@, from as int),
{
    if from < target.len() && target[target.len() - 1] == 93 {
        parse_decimal(&target[from..target.len() - 1], 0xffff_ffff_ffff_ffff)
    } else {
        None
    }
}

fn find_field<'a>(fields: &'a Vec<(Vec<u8>, Vec<u8>)>, key: &str) -> (r: Option<&'a Vec<u8>>)
    requires
        key.is_ascii(),
    ensures
        r is Some == field_value(fields_view(fields@), ascii_bytes(key@)) is Some,
        r matches Some(v) ==> v@ == field_value(fields_view(fields@), ascii_bytes(key@))->0,
{
    let mut i: usize = 0;
    assert(fields_view(fields@).skip(0) =~= fields_view(fields@));
    while i < fields.len()
        invariant
            i <= fields@.len(),
            key.is_ascii(),
            field_value(fields_view(fields@), ascii_bytes(key@)) == field_value(
                fields_view(fields@).skip(i as int),
                ascii_bytes(key@),
            ),
        decreases fields@.len() - i,
    {
        let ghost rest = fields_view(fields@).skip(i as int);
        assert(rest[0] == (fields@[i as int].0@, fields@[i as int].1@));
        assert(rest.drop_first() =~= fields_view(fields@).skip(i + 1));
        if is_text(fields[i].0.as_slice(), key) {
            return Some(&fields[i].1);
        }
        i += 1;
    }
    None
}

/// Reads the flags that a descriptor was opened with from the fields of its information
/// file.
pub fn read_flags(fields: &Vec<(Vec<u8>, Vec<u8>)>) -> (r: Option<u64>)
    ensures
        r == open_flags(fields_view(fields@)),
{
    proof {
        reveal_strlit("flags");
    }
    match find_field(fields, "flags") {
        Some(v) => parse_octal(v.as_slice(), 0xffff_ffff_ffff_ffff),
        None => None,
    }
}

/// The mode that the flags stand for.
pub fn mode_of_flags(flags: u64) -> (r: Option<String>)
    ensures
        r is Some == mode_of(flags) is Some,
        r matches Some(m) ==> m@ == mode_of(flags)->0,
{
    let access = flags % 4;
    let mut out = String::new();
    if access == 0 {
        out.push('r');
    } else if access == 1 {
        out.push('w');
    } else if access == 2 {
        out.push('u');
    } else {
        return None;
    }
    if (flags / 0o2000) % 2 == 1 {
        out.push('a');
    }
    assert(out@ =~= mode_of(flags)->0);
    Some(out)
}

/// The type of a descriptor with the given target and flags.
pub fn classify_type(target: &[u8], flags: Option<u64>) -> (r: FDType)
    ensures
        r@ == type_of(target@, flags),
{
    proof {
        reveal_strlit("socket:[");
        reveal_strlit("pipe:[");
        reveal_strlit("anon_inode:");
    }
    if starts_with(target, "socket:[") && read_bracketed(target, 8).is_some() {
        FDType::Socket
    } else if starts_with(target, "pipe:[") && read_bracketed(target, 6).is_some() {
        FDType::Pipe
    } else if starts_with(target, "anon_inode:") {
        FDType::AnonInode
    } else if target.len() > 0 && target[0] == 47 {
        match flags {
            Some(f) => if (f / 0o200000) % 2 == 1 {
                FDType::Dir
            } else {
                FDType::File
            },
            None => FDType::File,
        }
    } else {
        let colon = find_byte(target, 58, 0);
        FDType::Other(text_of_bytes(&target[0..colon]))
    }
}

fn socket_for(table: &SocketTable, inode: u64) -> (r: SocketInfo)
    ensures
        r@ == (if table@.contains_key(inode) {
            table@[inode]
        } else {
            degraded(inode)
        }),
        r.inode == inode,
{
    match table.lookup(inode) {
        Some(info) => info,
        None => SocketInfo {
            domain: SocketDomain::Other(0),
            kind: SocketKind::Other(0),
            state: SocketState::Unknown(0),
            local: Endpoint::Empty,
            remote: Endpoint::Empty,
            inode,
        },
    }
}

/// What a descriptor with the given target points at. A socket carries the inode that the
/// target names.
pub fn classify_target(target: &[u8], table: &SocketTable) -> (r: FDTarget)
    ensures
        r@ == target_of(target@, table@),
        r matches FDTarget::Socket(info) ==> socket_inode(target@) == Some(info.inode),
{
    proof {
        reveal_strlit("socket:[");
        reveal_strlit("pipe:[");
        reveal_strlit("anon_inode:");
    }
    if starts_with(target, "socket:[") {
        if let Some(inode) = read_bracketed(target, 8) {
            return FDTarget::Socket(socket_for(table, inode));
        }
    }
    if starts_with(target, "pipe:[") {
        if let Some(inode) = read_bracketed(target, 6) {
            return FDTarget::PipeInode(inode);
        }
    }
    if starts_with(target, "anon_inode:") {
        let kind = text_of_bytes(&target[11..target.len()]);
        assert(target@.subrange(11, target@.len() as int) == target@.skip(11));
        FDTarget::AnonInode(kind, 0)
    } else if target.len() > 0 && target[0] == 47 {
        FDTarget::Path(copy_of(target))
    } else {
        FDTarget::Raw(copy_of(target))
    }
}

/// Makes the entry that is reported for a descriptor of a process.
pub fn classify(process: &ProcessInfo, user: &str, fd: &FdRef, table: &SocketTable) -> (e: FdEntry)
    ensures
        e@ == entry_of(
            *process,
            user@,
            fd.fd_num,
            fd.link_target@,
            fields_view(fd.fdinfo@),
            table@,
        ),
        e.fd_type is Socket <==> e.target is Socket,
        e.target matches FDTarget::Socket(info) ==> socket_inode(fd.link_target@) == Some(
            info.inode,
        ),
{
    let flags = read_flags(&fd.fdinfo);
    let mode = match flags {
        Some(f) => mode_of_flags(f),
        None => None,
    };
    FdEntry {
        pid: process.pid,
        user: user.to_owned(),
        name: process.comm.clone(),
        fd_type: classify_type(fd.link_target.as_slice(), flags),
        fd: Some(fd.fd_num),
        mode,
        target: classify_target(fd.link_target.as_slice(), table),
    }
}

} // verus!
