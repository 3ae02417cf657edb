use vstd::prelude::*;
use crate::codec::{ClientMessage, ClientModel, CommonMessage, ServerMessage};
use crate::registry::{
    chunk_step, has_id, has_name, ids_unique, lemma_chunk_accounting, promotion, removal, total, ChunkAccept, Direction, Sharer, SharerRegistry,
};

verus! {

/// What the connection has to do after a server message was handled.
pub enum Effect<H> {
    /// Nothing: the message referred to a transfer that is not there.
    Nothing,
    /// Write `data` at `offset` into the file of the download bound to `id`.
    WriteChunk { id: u64, offset: u64, data: Vec<u8> },
    /// Write `data` at `offset` into the sharer's file, which is then
    /// complete, and report the download.
    FinishDownload { sharer: Sharer<H>, offset: u64, data: Vec<u8> },
    /// Stream the sharer's file to the server, in the background.
    SendFile { sharer: Sharer<H> },
    /// Report that the server declined the upload.
    UploadDeclined { sharer: Sharer<H>, reason: String },
    /// Send this message to the server.
    Reply { reply: ClientMessage },
    /// Report that the server declined the download.
    DownloadDeclined { name: String, reason: String },
    /// Show a message the client does not act on.
    Show { message: ServerMessage },
}

/// Why a user command was abandoned.
#[derive(Debug, PartialEq, Eq)]
pub enum CommandError {
    /// A transfer already waits under that name.
    NameInUse,
    /// No id is left to hand out.
    OutOfIds,
}

/// What handling a chunk of `data` for `id` does to the promoted sharers,
/// `before` and `after`, and what it asks for.
pub open spec fn chunk_handled<H>(
    before: Seq<Sharer<H>>,
    after: Seq<Sharer<H>>,
    data: Seq<u8>,
    id: u64,
    r: Effect<H>,
) -> bool {
    &&& r is Nothing <==> !exists|i: int|
        0 <= i < before.len() && (#[trigger] before[i]).id == id && before[i].direction
            == Direction::Download
    &&& r is Nothing ==> after == before
    &&& !(r is Nothing) ==> exists|i: int|
        {
            let s = before[i];
            let got = chunk_step(s.size, s.received, data.len());
            let updated = Sharer { received: got as u64, ..s };
            &&& 0 <= i < before.len()
            &&& (#[trigger] before[i]).id == id
            &&& s.direction == Direction::Download
            &&& if got == s.size {
                &&& r matches Effect::FinishDownload { sharer, offset, data: w }
                &&& sharer == updated
                &&& offset == s.received
                &&& w@ == data.take(got - s.received)
                &&& after == before.remove(i)
            } else {
                &&& r matches Effect::WriteChunk { id: wid, offset, data: w }
                &&& wid == id
                &&& offset == s.received
                &&& w@ == data.take(got - s.received)
                &&& after == before.update(i, updated)
            }
        }
}

/// A chunk for the download bound to `id`: what fits in the file is to be
/// written at the bytes received so far; when that completes the file, the
/// sharer is taken out. A chunk for anything else changes nothing.
pub fn handle_server_chunk<H>(reg: &mut SharerRegistry<H>, data: Vec<u8>, id: u64) -> (r: Effect<H>)
    requires
        old(reg).wf(),
    ensures
        final(reg).wf(),
        final(reg).pending() == old(reg).pending(),
        final(reg).id_floor() == old(reg).id_floor(),
        chunk_handled(old(reg).promoted(), final(reg).promoted(), data@, id, r),
{
    let ghost data_in = data@;
    let mut data = data;
    match reg.accept_chunk(id, data.len()) {
        ChunkAccept::Stray => Effect::Nothing,
        ChunkAccept::Write { offset, len, done } => {
            let ghost mid = reg.promoted();
            data.truncate(len);
            if !done {
                return Effect::WriteChunk { id, offset, data };
            }
            let removed = reg.remove_by_id(id);
            proof {
                let i = choose|i: int|
                    0 <= i < old(reg).promoted().len() && (#[trigger] old(reg).promoted()[i]).id
                        == id && old(reg).promoted()[i].direction == Direction::Download
                        && mid == old(reg).promoted().update(
                        i,
                        Sharer {
                            received: chunk_step(
                                old(reg).promoted()[i].size,
                                old(reg).promoted()[i].received,
                                data_in.len(),
                            ) as u64,
                            ..old(reg).promoted()[i]
                        },
                    );
                assert(mid[i].id == id);
                if removed is Some {
                    let s = removed->0;
                    let j = choose|j: int|
                        0 <= j < mid.len() && (#[trigger] mid[j]).id == id && s == mid[j]
                            && reg.promoted() == mid.remove(j);
                    assert(j == i);
                    assert(reg.promoted() =~= old(reg).promoted().remove(i));
                }
            }
            match removed {
                Some(sharer) => Effect::FinishDownload { sharer, offset, data },
                None => Effect::Nothing,
            }
        },
    }
}

/// The server's message common to both directions.
pub fn handle_server_common_message<H>(reg: &mut SharerRegistry<H>, message: CommonMessage) -> (r:
    Effect<H>)
    requires
        old(reg).wf(),
    ensures
        final(reg).wf(),
        final(reg).pending() == old(reg).pending(),
        final(reg).id_floor() == old(reg).id_floor(),
        match message {
            CommonMessage::Chunk { data, id } => chunk_handled(
                old(reg).promoted(),
                final(reg).promoted(),
                data@,
                id,
                r,
            ),
        },
{
    match message {
        CommonMessage::Chunk { data, id } => handle_server_chunk(reg, data, id),
    }
}

/// The server agreed to an upload: the sharer bound to `id` is taken out
/// and its file is to be sent.
pub fn handle_server_agree_file_upload<H>(reg: &mut SharerRegistry<H>, id: u64) -> (r: Effect<H>)
    requires
        old(reg).wf(),
    ensures
        final(reg).wf(),
        final(reg).pending() == old(reg).pending(),
        final(reg).id_floor() == old(reg).id_floor(),
        !has_id(final(reg).promoted(), id),
        match r {
            Effect::SendFile { sharer } => removal(
                old(reg).promoted(),
                final(reg).promoted(),
                id,
                Some(sharer),
            ),
            Effect::Nothing => removal(old(reg).promoted(), final(reg).promoted(), id, None),
            _ => false,
        },
{
    match reg.remove_by_id(id) {
        Some(sharer) => Effect::SendFile { sharer },
        None => Effect::Nothing,
    }
}

/// The server declined an upload: the sharer bound to `id` is taken out,
/// and the reason is to be reported.
pub fn handle_server_decline_file_upload<H>(reg: &mut SharerRegistry<H>, id: u64, reason: String) -> (r:
    Effect<H>)
    requires
        old(reg).wf(),
    ensures
        final(reg).wf(),
        final(reg).pending() == old(reg).pending(),
        final(reg).id_floor() == old(reg).id_floor(),
        !has_id(final(reg).promoted(), id),
        match r {
            Effect::UploadDeclined { sharer, reason: why } => why == reason && removal(
                old(reg).promoted(),
                final(reg).promoted(),
                id,
                Some(sharer),
            ),
            Effect::Nothing => removal(old(reg).promoted(), final(reg).promoted(), id, None),
            _ => false,
        },
{
    match reg.remove_by_id(id) {
        Some(sharer) => Effect::UploadDeclined { sharer, reason },
        None => Effect::Nothing,
    }
}

/// The server offers a download: the sharer waiting under `name` is bound
/// to `id`, and the client agrees. When no sharer waits under `name` the
/// offer was already handled, and the agreement is repeated. When one
/// waits but `id` is held by another transfer, nothing is promoted and the
/// offer is left unanswered, so that no chunk reaches the wrong file.
pub fn handle_server_agree_file_download<H>(
    reg: &mut SharerRegistry<H>,
    name: &str,
    size: u64,
    id: u64,
) -> (r: Effect<H>)
    requires
        old(reg).wf(),
    ensures
        final(reg).wf(),
        final(reg).id_floor() == old(reg).id_floor(),
        !(has_name(old(reg).pending(), name@) && has_id(old(reg).promoted(), id)) ==> (r matches Effect::Reply {
            reply,
        } && reply@ == ClientModel::AgreeFileDownload(id)),
        has_name(old(reg).pending(), name@) && has_id(old(reg).promoted(), id) ==> r is Nothing,
        promotion(
            *old(reg),
            *final(reg),
            name@,
            size,
            id,
            has_name(old(reg).pending(), name@) && !has_id(old(reg).promoted(), id),
        ),
{
    let waiting = reg.contains_pending(name);
    let promoted = reg.promote(name, size, id);
    if promoted || !waiting {
        Effect::Reply { reply: ClientMessage::AgreeFileDownload { id } }
    } else {
        Effect::Nothing
    }
}

/// The server declined a download: the sharer waiting under `name` is
/// taken out, and the reason is to be reported. No id is bound.
pub fn handle_server_decline_file_download<H>(
    reg: &mut SharerRegistry<H>,
    name: String,
    reason: String,
) -> (r: Effect<H>)
    requires
        old(reg).wf(),
    ensures
        final(reg).wf(),
        final(reg).promoted() == old(reg).promoted(),
        final(reg).id_floor() == old(reg).id_floor(),
        !has_name(final(reg).pending(), name@),
        has_name(old(reg).pending(), name@) ==> exists|i: int|
            0 <= i < old(reg).pending().len() && (#[trigger] old(reg).pending()[i]).name@ == name@
                && final(reg).pending() == old(reg).pending().remove(i),
        !has_name(old(reg).pending(), name@) ==> final(reg).pending() == old(reg).pending(),
        r matches Effect::DownloadDeclined { name: n, reason: why } && n == name && why == reason,
{
    let removed = reg.remove_unpromoted_by_name(name.as_str());
    proof {
        if removed is Some {
            let p = old(reg).pending();
            let i = choose|i: int|
                0 <= i < p.len() && (#[trigger] p[i]).name@ == name@ && removed->0 == p[i]
                    && reg.pending() == p.remove(i);
            assert forall|j: int| 0 <= j < reg.pending().len() implies (#[trigger] reg.pending()[j]).name@
                != name@ by {
                let j0 = if j < i { j } else { j + 1 };
                assert(reg.pending()[j] == p[j0]);
            }
        }
    }
    Effect::DownloadDeclined { name, reason }
}

/// Acts on one message from the server.
pub fn handle_server_message<H>(reg: &mut SharerRegistry<H>, message: ServerMessage) -> (r: Effect<H>)
    requires
        old(reg).wf(),
    ensures
        final(reg).wf(),
        final(reg).id_floor() == old(reg).id_floor(),
        match message {
            ServerMessage::Common { common: CommonMessage::Chunk { data, id } } => {
                &&& final(reg).pending() == old(reg).pending()
                &&& chunk_handled(old(reg).promoted(), final(reg).promoted(), data@, id, r)
            },
            ServerMessage::AgreeFileUpload { id } => final(reg).pending() == old(reg).pending()
                && !has_id(final(reg).promoted(), id) && match r {
                Effect::SendFile { sharer } => removal(
                    old(reg).promoted(),
                    final(reg).promoted(),
                    id,
                    Some(sharer),
                ),
                Effect::Nothing => removal(old(reg).promoted(), final(reg).promoted(), id, None),
                _ => false,
            },
            ServerMessage::DeclineFileUpload { id, reason } => final(reg).pending() == old(
                reg,
            ).pending() && !has_id(final(reg).promoted(), id) && match r {
                Effect::UploadDeclined { sharer, reason: why } => why == reason && removal(
                    old(reg).promoted(),
                    final(reg).promoted(),
                    id,
                    Some(sharer),
                ),
                Effect::Nothing => removal(old(reg).promoted(), final(reg).promoted(), id, None),
                _ => false,
            },
            ServerMessage::AgreeFileDownload { name, size, id } => {
                &&& !(has_name(old(reg).pending(), name@) && has_id(old(reg).promoted(), id)) ==> (
                r matches Effect::Reply { reply } && reply@ == ClientModel::AgreeFileDownload(id))
                &&& has_name(old(reg).pending(), name@) && has_id(old(reg).promoted(), id)
                    ==> r is Nothing
                &&& promotion(
                    *old(reg),
                    *final(reg),
                    name@,
                    size,
                    id,
                    has_name(old(reg).pending(), name@) && !has_id(old(reg).promoted(), id),
                )
            },
            ServerMessage::DeclineFileDownload { name, reason } => {
                &&& final(reg).promoted() == old(reg).promoted()
                &&& !has_name(final(reg).pending(), name@)
                &&& has_name(old(reg).pending(), name@) ==> exists|i: int|
                    0 <= i < old(reg).pending().len() && (#[trigger] old(reg).pending()[i]).name@
                        == name@ && final(reg).pending() == old(reg).pending().remove(i)
                &&& !has_name(old(reg).pending(), name@) ==> final(reg).pending() == old(
                    reg,
                ).pending()
                &&& r matches Effect::DownloadDeclined { name: n, reason: why }
                &&& n == name
                &&& why == reason
            },
            ServerMessage::Unrecognized { .. } => {
                &&& final(reg).pending() == old(reg).pending()
                &&& final(reg).promoted() == old(reg).promoted()
                &&& r matches Effect::Show { message: m }
                &&& m == message
            },
        },
{
    match message {
        ServerMessage::Common { common } => handle_server_common_message(reg, common),
        ServerMessage::AgreeFileUpload { id } => handle_server_agree_file_upload(reg, id),
        ServerMessage::DeclineFileUpload { id, reason } => handle_server_decline_file_upload(
            reg,
            id,
            reason,
        ),
        ServerMessage::AgreeFileDownload { name, size, id } => handle_server_agree_file_download(
            reg,
            name.as_str(),
            size,
            id,
        ),
        ServerMessage::DeclineFileDownload { name, reason } => handle_server_decline_file_download(
            reg,
            name,
            reason,
        ),
        ServerMessage::Unrecognized { tag, fields } => Effect::Show {
            message: ServerMessage::Unrecognized { tag, fields },
        },
    }
}

/// The message that sends `text` to the chat.
pub fn perform_text(text: &str) -> (r: ClientMessage)
    ensures
        r@ == ClientModel::Text(text@),
{
    ClientMessage::Text { text: text.to_owned() }
}

/// The message that asks to be called `new_name`.
pub fn perform_rename(new_name: &str) -> (r: ClientMessage)
    ensures
        r@ == ClientModel::Rename(new_name@),
{
    ClientMessage::Rename { new_name: new_name.to_owned() }
}

/// The outcome of registering an upload of `name` from `path`, open as
/// `handle`, of `size` bytes: refused when the name waits already or no id
/// is left; otherwise bound to the least free id from the floor up, with
/// the request to send.
pub open spec fn upload_registered<H>(
    before: SharerRegistry<H>,
    after: SharerRegistry<H>,
    name: Seq<char>,
    path: Seq<char>,
    handle: H,
    size: u64,
    r: Result<ClientMessage, CommandError>,
) -> bool {
    &&& has_name(before.pending(), name) ==> (r matches Err(CommandError::NameInUse))
    &&& r is Err ==> after.pending() == before.pending() && after.promoted() == before.promoted()
        && after.id_floor() == before.id_floor()
    &&& r matches Err(CommandError::OutOfIds) ==> forall|k: u64|
        before.id_floor() <= k < u64::MAX ==> #[trigger] has_id(before.promoted(), k)
    &&& !has_name(before.pending(), name) && (exists|k: u64|
        before.id_floor() <= k < u64::MAX && !#[trigger] has_id(before.promoted(), k)) ==> r is Ok
    &&& r matches Ok(m) ==> {
        let s = after.promoted().last();
        &&& m@ == ClientModel::RequestFileUpload { name, size, id: s.id }
        &&& !has_id(before.promoted(), s.id)
        &&& before.id_floor() <= s.id
        &&& forall|k: u64| before.id_floor() <= k < s.id ==> #[trigger] has_id(before.promoted(), k)
        &&& after.id_floor() == s.id + 1
        &&& after.pending() == before.pending()
        &&& after.promoted().len() == before.promoted().len() + 1
        &&& after.promoted().drop_last() == before.promoted()
        &&& s.name@ == name
        &&& s.path@ == path
        &&& s.handle == handle
        &&& s.size == size
        &&& s.received == 0
        &&& s.direction == Direction::Upload
    }
}

/// The outcome of registering a download of `name` into `path`, open as
/// `handle`: refused exactly when the name waits already; otherwise the
/// sharer waits for an id, with the request to send.
pub open spec fn download_registered<H>(
    before: SharerRegistry<H>,
    after: SharerRegistry<H>,
    name: Seq<char>,
    path: Seq<char>,
    handle: H,
    r: Result<ClientMessage, CommandError>,
) -> bool {
    &&& after.promoted() == before.promoted()
    &&& after.id_floor() == before.id_floor()
    &&& has_name(before.pending(), name) ==> (r matches Err(CommandError::NameInUse))
    &&& !has_name(before.pending(), name) ==> r is Ok
    &&& r is Err ==> after.pending() == before.pending()
    &&& r matches Ok(m) ==> {
        let s = after.pending().last();
        &&& m@ == ClientModel::RequestFileDownload(name)
        &&& after.pending().drop_last() == before.pending()
        &&& after.pending().len() == before.pending().len() + 1
        &&& s.name@ == name
        &&& s.path@ == path
        &&& s.handle == handle
        &&& s.received == 0
        &&& s.direction == Direction::Download
    }
}

/// Registers the upload of a file of `size` bytes, open as `handle`, under a
/// fresh id, and gives the request to send.
pub fn perform_upload_file<H>(
    reg: &mut SharerRegistry<H>,
    name: &str,
    path: &str,
    handle: H,
    size: u64,
) -> (r: Result<ClientMessage, CommandError>)
    requires
        old(reg).wf(),
    ensures
        final(reg).wf(),
        upload_registered(*old(reg), *final(reg), name@, path@, handle, size, r),
{
    if reg.contains_pending(name) {
        return Err(CommandError::NameInUse);
    }
    let id = match reg.free_id() {
        Some(id) => id,
        None => return Err(CommandError::OutOfIds),
    };
    let ghost before = reg.pending();
    let _ = reg.prepare(path.to_owned(), handle, name.to_owned(), Direction::Upload);
    let ghost p = reg.pending();
    let ghost n = before.len() as int;
    assert(p[n].name@ == name@);
    assert(has_name(p, name@));
    let promoted = reg.promote(name, size, id);
    proof {
        assert(promoted);
        let i = choose|i: int|
            0 <= i < p.len() && (#[trigger] p[i]).name@ == name@ && reg.pending() == p.remove(i);
        assert(i == n) by {
            if i < n {
                assert(before[i] == p[i]);
            }
        }
        assert(p.remove(n) =~= before);
        assert(reg.promoted().drop_last() =~= old(reg).promoted());
    }
    Ok(ClientMessage::RequestFileUpload { name: name.to_owned(), size, id })
}

/// Registers the download of `name` into the file open as `handle`, and
/// gives the request to send.
pub fn perform_download_file<H>(reg: &mut SharerRegistry<H>, name: &str, path: &str, handle: H) -> (r:
    Result<ClientMessage, CommandError>)
    requires
        old(reg).wf(),
    ensures
        final(reg).wf(),
        download_registered(*old(reg), *final(reg), name@, path@, handle, r),
{
    match reg.prepare(path.to_owned(), handle, name.to_owned(), Direction::Download) {
        Ok(()) => {
            assert(reg.pending().drop_last() =~= old(reg).pending());
            Ok(ClientMessage::RequestFileDownload { name: name.to_owned() })
        },
        Err(_) => Err(CommandError::NameInUse),
    }
}

/// A command of the user, with the file already open where it names one.
pub enum Command<H> {
    Connect { address: String },
    Text { text: String },
    Rename { new_name: String },
    UploadFile { name: String, path: String, file: H, size: u64 },
    DownloadFile { name: String, path: String, file: H },
    End,
    Nothing,
}

/// Carries out a command on a connection: the message to send, if the
/// command sends one. Connecting, ending and empty commands are for the
/// caller and send nothing here.
pub fn match_user_command_with_connection<H>(command: Command<H>, reg: &mut SharerRegistry<H>) -> (r:
    Result<Option<ClientMessage>, CommandError>)
    requires
        old(reg).wf(),
    ensures
        final(reg).wf(),
        match command {
            Command::Text { text } => {
                &&& *final(reg) == *old(reg)
                &&& r matches Ok(Some(m))
                &&& m@ == ClientModel::Text(text@)
            },
            Command::Rename { new_name } => {
                &&& *final(reg) == *old(reg)
                &&& r matches Ok(Some(m))
                &&& m@ == ClientModel::Rename(new_name@)
            },
            Command::UploadFile { name, path, file, size } => upload_registered(
                *old(reg),
                *final(reg),
                name@,
                path@,
                file,
                size,
                match r {
                    Ok(Some(m)) => Ok(m),
                    Ok(None) => Err(CommandError::NameInUse),
                    Err(e) => Err(e),
                },
            ) && !(r matches Ok(None)),
            Command::DownloadFile { name, path, file } => download_registered(
                *old(reg),
                *final(reg),
                name@,
                path@,
                file,
                match r {
                    Ok(Some(m)) => Ok(m),
                    Ok(None) => Err(CommandError::NameInUse),
                    Err(e) => Err(e),
                },
            ) && !(r matches Ok(None)),
            _ => {
                &&& *final(reg) == *old(reg)
                &&& r matches Ok(None)
            },
        },
{
    match command {
        Command::Text { text } => Ok(Some(perform_text(text.as_str()))),
        Command::Rename { new_name } => Ok(Some(perform_rename(new_name.as_str()))),
        Command::UploadFile { name, path, file, size } => {
            match perform_upload_file(reg, name.as_str(), path.as_str(), file, size) {
                Ok(m) => Ok(Some(m)),
                Err(e) => Err(e),
            }
        },
        Command::DownloadFile { name, path, file } => {
            match perform_download_file(reg, name.as_str(), path.as_str(), file) {
                Ok(m) => Ok(Some(m)),
                Err(e) => Err(e),
            }
        },
        _ => Ok(None),
    }
}

/// A download of `size` bytes fed chunks of non-zero lengths `lens` that
/// add up to `size`, one call of `handle_server_chunk` each: at call `k`,
/// with the bytes of the earlier calls received, the chunk is written
/// after them and the count moves on by its length. The download finishes,
/// and leaves the table, at the last call and at no other; before that it
/// stays bound to its id.
pub proof fn lemma_chunk_calls<H>(
    before: Seq<Sharer<H>>,
    after: Seq<Sharer<H>>,
    i: int,
    data: Seq<u8>,
    r: Effect<H>,
    lens: Seq<nat>,
    k: int,
)
    requires
        ids_unique(before),
        0 <= i < before.len(),
        before[i].direction == Direction::Download,
        total(lens) == before[i].size,
        forall|j: int| 0 <= j < lens.len() ==> #[trigger] lens[j] > 0,
        0 <= k < lens.len(),
        before[i].received == total(lens.take(k)),
        data.len() == lens[k],
        chunk_handled(before, after, data, before[i].id, r),
    ensures
        r is FinishDownload <==> k == lens.len() - 1,
        r is FinishDownload ==> !has_id(after, before[i].id),
        !(r is FinishDownload) ==> {
            &&& r matches Effect::WriteChunk { offset, .. }
            &&& offset == before[i].received
            &&& after.len() == before.len()
            &&& after[i] == (Sharer { received: total(lens.take(k + 1)) as u64, ..before[i] })
        },
{
    let id = before[i].id;
    lemma_chunk_accounting(before[i].size, lens);
    assert(chunk_step(before[i].size, total(lens.take(k)) as u64, lens[k]) == total(lens.take(k + 1)));
    assert(!(r is Nothing));
    let j = choose|j: int|
        {
            let s = before[j];
            let got = chunk_step(s.size, s.received, data.len());
            let updated = Sharer { received: got as u64, ..s };
            &&& 0 <= j < before.len()
            &&& (#[trigger] before[j]).id == id
            &&& s.direction == Direction::Download
            &&& if got == s.size {
                &&& r matches Effect::FinishDownload { sharer, offset, data: w }
                &&& sharer == updated
                &&& offset == s.received
                &&& w@ == data.take(got - s.received)
                &&& after == before.remove(j)
            } else {
                &&& r matches Effect::WriteChunk { id: wid, offset, data: w }
                &&& wid == id
                &&& offset == s.received
                &&& w@ == data.take(got - s.received)
                &&& after == before.update(j, updated)
            }
        };
    assert(j == i) by {
        if j != i {
            if j < i {
                assert(before[j].id != before[i].id);
            } else {
                assert(before[i].id != before[j].id);
            }
        }
    }
    if k == lens.len() - 1 {
        assert forall|m: int| 0 <= m < after.len() implies (#[trigger] after[m]).id != id by {
            let m0 = if m < i { m } else { m + 1 };
            assert(after[m] == before[m0]);
            if m0 < i {
                assert(before[m0].id != before[i].id);
            } else {
                assert(before[i].id != before[m0].id);
            }
        }
    }
}

} // verus!
