//! The objects handed to the host: the client session, its reader and
//! writer, and the records of a save list.
use vstd::prelude::*;

use crate::manifest::{upsert_spec, Manifest};
use crate::paths::{get_save_path, parts_view, save_file_name_spec};

verus! {

/// One entry of a save list, as the host reads it.
pub struct SavegameInfo {
    pub id: u32,
    /// Size of the save file in bytes, truncated to 32 bits.
    pub size: u32,
    /// Display name as UTF-16, without a terminating nul.
    pub name: Vec<u16>,
}


impl SavegameInfo {
    pub fn new(id: u32, size: u32, name: Vec<u16>) -> (r: SavegameInfo)
        ensures
            r.id == id,
            r.size == size,
            r.name == name,
    {
        SavegameInfo { id, size, name }
    }

    pub fn get_savegame_id(&self) -> (r: u32)
        ensures
            r == self.id,
    {
        self.id
    }

    pub fn get_size(&self) -> (r: u32)
        ensures
            r == self.size,
    {
        self.size
    }

    pub fn get_name(&self) -> (r: &Vec<u16>)
        ensures
            r == &self.name,
    {
        &self.name
    }
}

/// A reader bound to one save; the file is opened anew for each read.
pub struct SavegameReader {
    /// Location of the save file, as path parts.
    pub path: Vec<String>,
}

impl SavegameReader {
    pub fn new(path: Vec<String>) -> (r: SavegameReader)
        ensures
            r.path == path,
    {
        SavegameReader { path }
    }
}

impl Default for SavegameReader {
    fn default() -> (r: SavegameReader)
        ensures
            r.path@.len() == 0,
    {
        SavegameReader { path: Vec::new() }
    }
}

/// How a writer opens its file: for reading and writing, created if absent.
#[derive(Clone, Copy, Debug, PartialEq, Eq, Structural)]
pub enum WriteMode {
    /// No mode chosen yet: opening fails.
    Unset,
    /// Existing content is kept.
    PreserveExisting,
    /// Existing content is cut to nothing.
    Truncate,
}

/// A writer bound to one save; the file is opened anew for each write.
pub struct SavegameWriter {
    pub id: u32,
    /// Location of the save file, as path parts.
    pub path: Vec<String>,
    pub mode: WriteMode,
}

/// The text that widestring decodes from the UTF-16 units `w`, if they are valid UTF-16.
pub uninterp spec fn text_of_wide(w: Seq<u16>) -> Option<Seq<char>>;

/// Relies on widestring's `U16Str::from_slice`, then `to_string`: the UTF-16
/// units decoded, refused when they are not valid UTF-16.
#[verifier::external_body]
fn decode_wide(w: &[u16]) -> (r: Option<String>)
    ensures
        r is Some <==> text_of_wide(w@) is Some,
        r matches Some(s) ==> text_of_wide(w@) == Some(s@),
{
    match widestring::U16Str::from_slice(w).to_string() {
        Ok(s) => Some(s),
        Err(_) => None,
    }
}

impl SavegameWriter {
    pub fn new(id: u32, path: Vec<String>, mode: WriteMode) -> (r: SavegameWriter)
        ensures
            r.id == id,
            r.path == path,
            r.mode == mode,
    {
        SavegameWriter { id, path, mode }
    }

    /// Names this writer's save in `manifest` with the UTF-16 name `wide_name`.
    /// Returns false, and leaves the manifest as it was, when the name is not
    /// valid UTF-16.
    pub fn set_name(&self, manifest: &mut Manifest, wide_name: &[u16]) -> (r: bool)
        ensures
            r == text_of_wide(wide_name@) is Some,
            r ==> final(manifest)@ == upsert_spec(old(manifest)@, self.id, text_of_wide(wide_name@)->Some_0),
            !r ==> final(manifest)@ == old(manifest)@,
            old(manifest).wf() ==> final(manifest).wf(),
    {
        match decode_wide(wide_name) {
            Some(name) => {
                manifest.set_name(self.id, name);
                true
            },
            None => false,
        }
    }
}

impl Default for SavegameWriter {
    fn default() -> (r: SavegameWriter)
        ensures
            r.id == 0,
            r.path@.len() == 0,
            r.mode == WriteMode::Unset,
    {
        SavegameWriter { id: 0, path: Vec::new(), mode: WriteMode::Unset }
    }
}

/// The state of one client session.
pub struct Inner {
    /// The last request id handed out; 0 before the first.
    pub request_id: u32,
    pub savegame_reader: Box<SavegameReader>,
    pub savegame_writer: Box<SavegameWriter>,
}

/// One client session, owned by the host between construction and destruction.
pub struct OrbitClient {
    pub inner: Box<Inner>,
}

/// A request id call that found the counter at `before`, returned `r` and left
/// the counter at `after`.
pub open spec fn next_request_step(before: u32, r: u32, after: u32) -> bool {
    r == before + 1 && after == r
}

/// From a fresh session, consecutive request ids are 1, 2, 3, and so on, with
/// no gap and no repeat: `counters` are the counter values around the calls,
/// `ids` what the calls returned.
pub proof fn lemma_request_ids_count_up(counters: Seq<u32>, ids: Seq<u32>)
    requires
        counters.len() == ids.len() + 1,
        counters[0] == 0,
        forall|i: int| 0 <= i < ids.len() ==> next_request_step(counters[i], #[trigger] ids[i], counters[i + 1]),
    ensures
        forall|i: int| 0 <= i < ids.len() ==> #[trigger] ids[i] == i + 1,
    decreases ids.len(),
{
    if ids.len() > 0 {
        let n = ids.len() - 1;
        lemma_request_ids_count_up(counters.subrange(0, n + 1), ids.subrange(0, n));
        assert forall|i: int| 0 <= i < ids.len() implies #[trigger] ids[i] == i + 1 by {
            if i < n {
                assert(ids.subrange(0, n)[i] == ids[i]);
            } else if n > 0 {
                assert(ids.subrange(0, n)[n - 1] == ids[n - 1]);
                assert(next_request_step(counters[n - 1], ids[n - 1], counters[n]));
                assert(next_request_step(counters[n], ids[n], counters[n + 1]));
            } else {
                assert(next_request_step(counters[0], ids[0], counters[1]));
            }
        }
    }
}

impl OrbitClient {
    /// A fresh session: no request id handed out, no reader or writer opened.
    pub fn new() -> (r: OrbitClient)
        ensures
            r.inner.request_id == 0,
            r.inner.savegame_reader.path@.len() == 0,
            r.inner.savegame_writer.id == 0,
            r.inner.savegame_writer.path@.len() == 0,
            r.inner.savegame_writer.mode == WriteMode::Unset,
    {
        OrbitClient {
            inner: Box::new(
                Inner {
                    request_id: 0,
                    savegame_reader: Box::new(SavegameReader::default()),
                    savegame_writer: Box::new(SavegameWriter::default()),
                },
            ),
        }
    }

    /// Hands out the next request id of this session.
    pub fn get_next_request_id(&mut self) -> (r: u32)
        requires
            old(self).inner.request_id < u32::MAX,
        ensures
            next_request_step(old(self).inner.request_id, r, final(self).inner.request_id),
            final(self).inner.savegame_reader == old(self).inner.savegame_reader,
            final(self).inner.savegame_writer == old(self).inner.savegame_writer,
    {
        self.inner.request_id = self.inner.request_id + 1;
        self.inner.request_id
    }

    /// Binds the session's reader to the save `id` in `saves_dir`, in place of
    /// the previous one.
    pub fn open_reader(&mut self, saves_dir: &Vec<String>, id: u32)
        ensures
            parts_view(final(self).inner.savegame_reader.path@) == parts_view(saves_dir@).push(
                save_file_name_spec(id),
            ),
            final(self).inner.request_id == old(self).inner.request_id,
            final(self).inner.savegame_writer == old(self).inner.savegame_writer,
    {
        let path = get_save_path(saves_dir, id);
        self.inner.savegame_reader = Box::new(SavegameReader::new(path));
    }

    /// Binds the session's writer to the save `id` in `saves_dir`, in place of
    /// the previous one; its file keeps its content if `preserve_existing`,
    /// and is truncated otherwise.
    pub fn open_writer(&mut self, saves_dir: &Vec<String>, id: u32, preserve_existing: bool)
        ensures
            final(self).inner.savegame_writer.id == id,
            parts_view(final(self).inner.savegame_writer.path@) == parts_view(saves_dir@).push(
                save_file_name_spec(id),
            ),
            final(self).inner.savegame_writer.mode == (if preserve_existing {
                WriteMode::PreserveExisting
            } else {
                WriteMode::Truncate
            }),
            final(self).inner.request_id == old(self).inner.request_id,
            final(self).inner.savegame_reader == old(self).inner.savegame_reader,
    {
        let path = get_save_path(saves_dir, id);
        let mode = if preserve_existing {
            WriteMode::PreserveExisting
        } else {
            WriteMode::Truncate
        };
        self.inner.savegame_writer = Box::new(SavegameWriter::new(id, path, mode));
    }

    pub fn savegame_reader(&self) -> (r: &SavegameReader)
        ensures
            r == &*self.inner.savegame_reader,
    {
        &self.inner.savegame_reader
    }

    pub fn savegame_writer(&self) -> (r: &SavegameWriter)
        ensures
            r == &*self.inner.savegame_writer,
    {
        &self.inner.savegame_writer
    }
}

} // verus!
