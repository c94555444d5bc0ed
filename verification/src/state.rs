//! The state the user edits through the interface: this machine, the peers,
//! the files queued for sending and the progress of transfers; and what each
//! command and each worker event does to it.
use vstd::prelude::*;
use crate::disc::models::CurrentClientInfo;
use crate::models::{CusErr, FileInfo, IntranetClientInfo, TransInfo, TransType};
use crate::transfer::sender::{file_name_of, path_file_name, paths_equal, same_path};
use crate::transfer::jobs::RunningJobs;
use crate::transfer::models::{MessageTransAccept, MessageTransHandle, ReqTransferData};
use crate::text::{decimal, ipv4_text, ipv4_to_text, joined, progress_key, socket_addr_text, client_name};
use crate::disc::discover::service_type_text;

verus! {

/// The progress of one transfer, under its key (`peer_file`).
#[derive(Debug)]
pub struct TransEntry {
    pub key: String,
    pub info: TransInfo,
}

/// Some client in `clients` is called `name`.
pub open spec fn has_name(clients: Seq<IntranetClientInfo>, name: Seq<char>) -> bool {
    exists|i: int| 0 <= i < clients.len() && clients[i].name@ == name
}

/// No two clients share a name.
pub open spec fn names_unique(clients: Seq<IntranetClientInfo>) -> bool {
    forall|i: int, j: int| 0 <= i < j < clients.len() ==> clients[i].name@ != clients[j].name@
}

/// No two progress entries share a key.
pub open spec fn keys_unique(entries: Seq<TransEntry>) -> bool {
    forall|i: int, j: int| 0 <= i < j < entries.len() ==> entries[i].key@ != entries[j].key@
}

/// `i` is the first position in `clients` of a client called `name`.
pub open spec fn first_named(clients: Seq<IntranetClientInfo>, name: Seq<char>, i: int) -> bool {
    &&& 0 <= i < clients.len()
    &&& clients[i].name@ == name
    &&& forall|j: int| 0 <= j < i ==> clients[j].name@ != name
}

/// `clients` without the clients called `name`, the rest in order.
pub open spec fn without_named(clients: Seq<IntranetClientInfo>, name: Seq<char>) -> Seq<
    IntranetClientInfo,
>
    decreases clients.len(),
{
    if clients.len() == 0 {
        clients
    } else if clients.last().name@ == name {
        without_named(clients.drop_last(), name)
    } else {
        without_named(clients.drop_last(), name).push(clients.last())
    }
}

/// The client `c` with its selection set to `selected`.
pub open spec fn with_selected(c: IntranetClientInfo, selected: bool) -> IntranetClientInfo {
    IntranetClientInfo {
        name: c.name,
        ip: c.ip,
        port: c.port,
        selected: selected,
        auto_find: c.auto_find,
    }
}

/// The text of the error for a client whose name is taken.
pub open spec fn duplicate_client_text() -> Seq<char> {
    seq!['已', '存', '在', '同', '名', '客', '户', '端']
}

/// The paths of queued files.
pub open spec fn file_paths(files: Seq<FileInfo>) -> Seq<Seq<char>> {
    files.map_values(|f: FileInfo| f.file@)
}

/// The text of the error for a path without a file name.
pub open spec fn no_file_name_text() -> Seq<char> {
    seq!['文', '件', '名', '获', '取', '失', '败']
}

/// `path` is the same path (by `same_path`) as one of `existing`.
pub open spec fn path_queued(existing: Seq<Seq<char>>, path: Seq<char>) -> bool {
    exists|i: int| 0 <= i < existing.len() && same_path(existing[i], path)
}

/// What adding the requested files does, when the paths in `existing` are
/// already queued: the records added, as (name, path, size), and the text of
/// the error that stopped it, if any. Each request is a path with the
/// outcome of looking up its size. Requests for paths that are the same
/// path as a queued one (compared as paths, not as text) are skipped;
/// the first request whose path has no file name, or whose size could not be
/// found, stops the work with that error, keeping what was added before it.
pub open spec fn added_files(
    existing: Seq<Seq<char>>,
    reqs: Seq<(String, Result<u64, String>)>,
) -> (Seq<(Seq<char>, Seq<char>, u64)>, Option<Seq<char>>)
    decreases reqs.len(),
{
    if reqs.len() == 0 {
        (Seq::empty(), None)
    } else {
        let path = reqs[0].0;
        let size = reqs[0].1;
        if path_queued(existing, path@) {
            added_files(existing, reqs.drop_first())
        } else {
            match path_file_name(path@) {
                None => (Seq::empty(), Some(no_file_name_text())),
                Some(name) => match size {
                    Err(m) => (Seq::empty(), Some(m@)),
                    Ok(sz) => {
                        let more = added_files(existing, reqs.drop_first());
                        (seq![(name, path@, sz)] + more.0, more.1)
                    },
                },
            }
        }
    }
}

/// The record of a queued file, as (name, path, size).
pub open spec fn file_record(f: FileInfo) -> (Seq<char>, Seq<char>, u64) {
    (f.filename@, f.file@, f.size)
}

/// `i` is the first position in `files` of a file called `name`.
pub open spec fn first_file_named(files: Seq<FileInfo>, name: Seq<char>, i: int) -> bool {
    &&& 0 <= i < files.len()
    &&& files[i].filename@ == name
    &&& forall|j: int| 0 <= j < i ==> files[j].filename@ != name
}

/// Some progress entry has the key `key`.
pub open spec fn has_key(entries: Seq<TransEntry>, key: Seq<char>) -> bool {
    exists|i: int| 0 <= i < entries.len() && entries[i].key@ == key
}

/// `info` with new sizes; it is done when everything has been transferred.
pub open spec fn with_progress(info: TransInfo, total: u64, trans: u64) -> TransInfo {
    TransInfo {
        filename: info.filename,
        from: info.from,
        to: info.to,
        trans_type: info.trans_type,
        total_size: total,
        trans_size: trans,
        is_done: total == trans,
    }
}

/// `after` is `before` with the existing entry for `key` given new sizes.
pub open spec fn progress_updated(
    before: Seq<TransEntry>,
    after: Seq<TransEntry>,
    key: Seq<char>,
    total: u64,
    trans: u64,
) -> bool {
    forall|i: int|
        0 <= i < before.len() && before[i].key@ == key ==> after == before.update(
            i,
            TransEntry { key: before[i].key, info: with_progress(before[i].info, total, trans) },
        )
}

/// `after` is `before` with one new entry under `key` at its end.
pub open spec fn progress_appended(before: Seq<TransEntry>, after: Seq<TransEntry>, key: Seq<char>) -> bool {
    &&& after.len() == before.len() + 1
    &&& after.drop_last() == before
    &&& after.last().key@ == key
}

/// A new progress record: nothing is done yet, whatever the sizes.
pub open spec fn fresh_info(
    info: TransInfo,
    filename: String,
    from: Seq<char>,
    to: Seq<char>,
    trans_type: TransType,
    total: u64,
    trans: u64,
) -> bool {
    &&& info.filename == filename
    &&& info.from@ == from
    &&& info.to@ == to
    &&& info.trans_type == trans_type
    &&& info.total_size == total
    &&& info.trans_size == trans
    &&& !info.is_done
}

/// The entries that are not done, in order.
pub open spec fn not_done(entries: Seq<TransEntry>) -> Seq<TransEntry>
    decreases entries.len(),
{
    if entries.len() == 0 {
        entries
    } else if entries.last().info.is_done {
        not_done(entries.drop_last())
    } else {
        not_done(entries.drop_last()).push(entries.last())
    }
}

/// The selected clients, in order.
pub open spec fn selected_clients(clients: Seq<IntranetClientInfo>) -> Seq<IntranetClientInfo>
    decreases clients.len(),
{
    if clients.len() == 0 {
        clients
    } else if clients.last().selected {
        selected_clients(clients.drop_last()).push(clients.last())
    } else {
        selected_clients(clients.drop_last())
    }
}

/// The paths of queued files, as strings.
pub open spec fn path_strings(files: Seq<FileInfo>) -> Seq<String> {
    files.map_values(|f: FileInfo| f.file)
}

/// The text of the error for a transfer asked for while one is running.
pub open spec fn busy_text() -> Seq<char> {
    seq!['任', '务', '正', '在', '执', '行', '中']
}

/// The prefix of the error for a job the sending worker would not take.
pub open spec fn send_failed_text() -> Seq<char> {
    seq!['发', '送', '任', '务', '失', '败', ':']
}

/// The error for a job the sending worker would not take, with `reason`.
pub fn send_job_error(reason: &String) -> (e: CusErr)
    ensures
        e is AnyHowError,
        e.text() == send_failed_text() + reason@,
{
    let mut m = "发送任务失败:".to_string();
    proof {
        reveal_strlit("发送任务失败:");
    }
    assert(m@ =~= send_failed_text());
    m.append(reason.as_str());
    CusErr::AnyHowError(m)
}

/// The sending jobs for a transfer: one per selected client, in order, each
/// with every queued file; none unless some client is selected and some file
/// is queued.
pub open spec fn jobs_for(
    jobs: Seq<MessageTransAccept>,
    clients: Seq<IntranetClientInfo>,
    files: Seq<FileInfo>,
) -> bool {
    let sel = selected_clients(clients);
    if sel.len() > 0 && files.len() > 0 {
        &&& jobs.len() == sel.len()
        &&& forall|k: int|
            0 <= k < jobs.len() ==> (#[trigger] jobs[k] matches MessageTransAccept::CreateJob {
                to,
                multi_paths,
            } && to@ == joined(sel[k].ip@, ':', decimal(sel[k].port as nat)) && multi_paths@
                == path_strings(files))
    } else {
        jobs.len() == 0
    }
}

/// Everything the tool shows and edits.
pub struct AppState {
    pub data_current_client: Option<CurrentClientInfo>,
    pub data_intranet_clients: Vec<IntranetClientInfo>,
    pub data_files: Vec<FileInfo>,
    pub data_trans_status: Vec<TransEntry>,
}

impl AppState {
    /// The state's invariant: client names and progress keys are unique.
    pub open spec fn wf(&self) -> bool {
        &&& names_unique(self.data_intranet_clients@)
        &&& keys_unique(self.data_trans_status@)
    }

    /// Nothing known yet.
    pub fn new() -> (s: Self)
        ensures
            s.wf(),
            s.data_current_client is None,
            s.data_intranet_clients@.len() == 0,
            s.data_files@.len() == 0,
            s.data_trans_status@.len() == 0,
    {
        AppState {
            data_current_client: None,
            data_intranet_clients: Vec::new(),
            data_files: Vec::new(),
            data_trans_status: Vec::new(),
        }
    }

    fn find_client(&self, name: &String) -> (r: Option<usize>)
        ensures
            r is None <==> !has_name(self.data_intranet_clients@, name@),
            r matches Some(i) ==> first_named(self.data_intranet_clients@, name@, i as int),
    {
        let n = self.data_intranet_clients.len();
        let mut i: usize = 0;
        while i < n
            invariant
                n == self.data_intranet_clients@.len(),
                i <= n,
                forall|j: int| 0 <= j < i ==> self.data_intranet_clients@[j].name@ != name@,
            decreases n - i,
        {
            if self.data_intranet_clients[i].name == *name {
                return Some(i);
            }
            i = i + 1;
        }
        None
    }

    /// Adds a client by hand. A name that is taken is refused.
    pub fn add_client(&mut self, client: IntranetClientInfo) -> (r: Result<(), CusErr>)
        requires
            old(self).wf(),
        ensures
            final(self).wf(),
            final(self).data_current_client == old(self).data_current_client,
            final(self).data_files == old(self).data_files,
            final(self).data_trans_status == old(self).data_trans_status,
            has_name(old(self).data_intranet_clients@, client.name@) ==> {
                &&& r matches Err(e) && e is AnyHowError && e.text() == duplicate_client_text()
                &&& final(self).data_intranet_clients == old(self).data_intranet_clients
            },
            !has_name(old(self).data_intranet_clients@, client.name@) ==> {
                &&& r is Ok
                &&& final(self).data_intranet_clients@ == old(self).data_intranet_clients@.push(
                    (IntranetClientInfo {
                        name: client.name,
                        ip: client.ip,
                        port: client.port,
                        selected: client.selected,
                        auto_find: false,
                    }),
                )
            },
    {
        if self.find_client(&client.name).is_some() {
            let e = CusErr::msg("已存在同名客户端");
            proof {
                reveal_strlit("已存在同名客户端");
            }
            assert(e.text() =~= duplicate_client_text());
            return Err(e);
        }
        let mut client = client;
        client.auto_find = false;
        self.data_intranet_clients.push(client);
        Ok(())
    }

    /// Selects or deselects the client called `name`, if there is one.
    pub fn selected_client(&mut self, name: &String, selected: bool)
        requires
            old(self).wf(),
        ensures
            final(self).wf(),
            final(self).data_current_client == old(self).data_current_client,
            final(self).data_files == old(self).data_files,
            final(self).data_trans_status == old(self).data_trans_status,
            final(self).data_intranet_clients@.len() == old(self).data_intranet_clients@.len(),
            forall|i: int|
                #![trigger final(self).data_intranet_clients@[i]]
                0 <= i < old(self).data_intranet_clients@.len() ==> final(self).data_intranet_clients@[i]
                    == if first_named(old(self).data_intranet_clients@, name@, i) {
                    with_selected(old(self).data_intranet_clients@[i], selected)
                } else {
                    old(self).data_intranet_clients@[i]
                },
    {
        match self.find_client(name) {
            Some(i) => {
                let mut c = self.data_intranet_clients[i].clone();
                c.selected = selected;
                self.data_intranet_clients.set(i, c);
            },
            None => {},
        }
    }

    /// Forgets every client called `name`.
    pub fn remove_client(&mut self, name: &String)
        requires
            old(self).wf(),
        ensures
            final(self).wf(),
            final(self).data_current_client == old(self).data_current_client,
            final(self).data_files == old(self).data_files,
            final(self).data_trans_status == old(self).data_trans_status,
            final(self).data_intranet_clients@ == without_named(
                old(self).data_intranet_clients@,
                name@,
            ),
    {
        let ghost before = self.data_intranet_clients@;
        let mut kept: Vec<IntranetClientInfo> = Vec::new();
        let n = self.data_intranet_clients.len();
        let mut i: usize = 0;
        while i < n
            invariant
                n == self.data_intranet_clients@.len(),
                before == self.data_intranet_clients@,
                i <= n,
                kept@ == without_named(before.take(i as int), name@),
            decreases n - i,
        {
            assert(before.take(i + 1).drop_last() =~= before.take(i as int));
            if self.data_intranet_clients[i].name != *name {
                kept.push(self.data_intranet_clients[i].clone());
            }
            i = i + 1;
        }
        assert(before.take(n as int) =~= before);
        self.data_intranet_clients = kept;
        proof {
            lemma_without_named_unique(before, name@);
        }
    }
    /// Queues files for sending. Each request is a path with the outcome of
    /// looking up its size; see `added_files`.
    pub fn add_file(&mut self, reqs: Vec<(String, Result<u64, String>)>) -> (r: Result<(), CusErr>)
        requires
            old(self).wf(),
        ensures
            final(self).wf(),
            final(self).data_current_client == old(self).data_current_client,
            final(self).data_intranet_clients == old(self).data_intranet_clients,
            final(self).data_trans_status == old(self).data_trans_status,
            ({
                let (added, err) = added_files(file_paths(old(self).data_files@), reqs@);
                &&& final(self).data_files@.len() == old(self).data_files@.len() + added.len()
                &&& forall|i: int|
                    0 <= i < old(self).data_files@.len() ==> #[trigger] final(self).data_files@[i]
                        == old(self).data_files@[i]
                &&& forall|j: int|
                    0 <= j < added.len() ==> file_record(
                        #[trigger] final(self).data_files@[old(self).data_files@.len() + j],
                    ) == added[j]
                &&& r is Ok <==> err is None
                &&& r matches Err(e) ==> e is AnyHowError && err == Some(e.text())
            }),
            (forall|i: int|
                0 <= i < reqs@.len() ==> file_paths(old(self).data_files@).contains(
                    #[trigger] reqs@[i].0@,
                )) ==> r is Ok && final(self).data_files == old(self).data_files,
    {
        let ghost existing = file_paths(self.data_files@);
        let ghost old_files = self.data_files@;
        assert(old_files == old(self).data_files@);
        let mut o_files: Vec<String> = Vec::new();
        let nf = self.data_files.len();
        let mut k: usize = 0;
        while k < nf
            invariant
                nf == self.data_files@.len(),
                self.data_files@ == old_files,
                existing == file_paths(old_files),
                k <= nf,
                o_files@.map_values(|p: String| p@) == existing.take(k as int),
            decreases nf - k,
        {
            let ghost o0 = o_files@;
            o_files.push(self.data_files[k].file.clone());
            assert(o_files@.map_values(|p: String| p@) =~= o0.map_values(|p: String| p@).push(
                self.data_files@[k as int].file@,
            ));
            assert(existing.take(k + 1) =~= existing.take(k as int).push(existing[k as int]));
            k = k + 1;
        }
        assert(existing.take(nf as int) =~= existing);
        let n = reqs.len();
        let mut i: usize = 0;
        assert(reqs@.skip(0) =~= reqs@);
        while i < n
            invariant
                n == reqs@.len(),
                i <= n,
                o_files@.map_values(|p: String| p@) == existing,
                old_files == old(self).data_files@,
                existing == file_paths(old_files),
                self.data_files@.len() >= old_files.len(),
                forall|a: int| 0 <= a < old_files.len() ==> #[trigger] self.data_files@[a] == old_files[a],
                added_files(existing, reqs@) == ({
                    let more = added_files(existing, reqs@.skip(i as int));
                    (self.data_files@.skip(old_files.len() as int).map_values(|f: FileInfo| file_record(f)) + more.0, more.1)
                }),
                self.data_intranet_clients == old(self).data_intranet_clients,
                self.data_trans_status == old(self).data_trans_status,
                self.data_current_client == old(self).data_current_client,
                names_unique(self.data_intranet_clients@),
                keys_unique(self.data_trans_status@),
                (forall|a: int| 0 <= a < reqs@.len() ==> existing.contains(#[trigger] reqs@[a].0@))
                    ==> self.data_files == old(self).data_files,
            decreases n - i,
        {
            let ghost done = self.data_files@.skip(old_files.len() as int).map_values(|f: FileInfo| file_record(f));
            assert(reqs@.skip(i as int).drop_first() =~= reqs@.skip(i + 1));
            assert(reqs@.skip(i as int)[0] == reqs@[i as int]);
            let path = &reqs[i].0;
            if !path_is_queued(&o_files, path) {
                match file_name_of(path.as_str()) {
                    None => {
                        let e = CusErr::msg("文件名获取失败");
                        proof {
                            reveal_strlit("文件名获取失败");
                        }
                        assert(e.text() =~= no_file_name_text());
                        assert(done + Seq::empty() =~= done);
                        proof {
                            lemma_records(self.data_files@, old_files.len() as int);
                        }
                        return Err(e);
                    },
                    Some(filename) => {
                        let size = &reqs[i].1;
                        match size {
                            Err(m) => {
                                assert(reqs@[i as int].1 == Err::<u64, String>(*m));
                                assert(done + Seq::empty() =~= done);
                                proof {
                                    lemma_records(self.data_files@, old_files.len() as int);
                                }
                                return Err(CusErr::AnyHowError(m.clone()));
                            },
                            Ok(sz) => {
                                self.data_files.push(FileInfo { filename, file: path.clone(), size: *sz });
                                let ghost more = added_files(existing, reqs@.skip(i + 1));
                                assert(self.data_files@.skip(old_files.len() as int).map_values(|f: FileInfo| file_record(f)) =~= done.push(file_record(self.data_files@.last())));
                                assert(done + (seq![file_record(self.data_files@.last())] + more.0) =~= done.push(file_record(self.data_files@.last())) + more.0);
                            },
                        }
                    },
                }
            }
            i = i + 1;
        }
        assert(reqs@.skip(n as int) =~= Seq::<(String, Result<u64, String>)>::empty());
        proof {
            lemma_records(self.data_files@, old_files.len() as int);
        }
        Ok(())
    }

    /// Takes the first file called `name` off the queue, if there is one.
    pub fn remove_file(&mut self, name: &String)
        requires
            old(self).wf(),
        ensures
            final(self).wf(),
            final(self).data_current_client == old(self).data_current_client,
            final(self).data_intranet_clients == old(self).data_intranet_clients,
            final(self).data_trans_status == old(self).data_trans_status,
            forall|i: int|
                first_file_named(old(self).data_files@, name@, i) ==> final(self).data_files@
                    == old(self).data_files@.remove(i),
            (forall|i: int| !first_file_named(old(self).data_files@, name@, i))
                ==> final(self).data_files@ == old(self).data_files@,
    {
        let n = self.data_files.len();
        let mut i: usize = 0;
        while i < n
            invariant
                n == self.data_files@.len(),
                self.data_files@ == old(self).data_files@,
                i <= n,
                forall|j: int| 0 <= j < i ==> self.data_files@[j].filename@ != name@,
                self.data_intranet_clients == old(self).data_intranet_clients,
                self.data_trans_status == old(self).data_trans_status,
                self.data_current_client == old(self).data_current_client,
                names_unique(self.data_intranet_clients@),
                keys_unique(self.data_trans_status@),
            decreases n - i,
        {
            if self.data_files[i].filename == *name {
                assert(first_file_named(old(self).data_files@, name@, i as int));
                self.data_files.remove(i);
                return;
            }
            i = i + 1;
        }
    }

    /// The first position of a progress entry with key `key`.
    fn find_key(&self, key: &String) -> (r: Option<usize>)
        ensures
            r is None <==> !has_key(self.data_trans_status@, key@),
            r matches Some(i) ==> i < self.data_trans_status@.len()
                && self.data_trans_status@[i as int].key@ == key@,
    {
        let n = self.data_trans_status.len();
        let mut i: usize = 0;
        while i < n
            invariant
                n == self.data_trans_status@.len(),
                i <= n,
                forall|j: int| 0 <= j < i ==> self.data_trans_status@[j].key@ != key@,
            decreases n - i,
        {
            if self.data_trans_status[i].key == *key {
                return Some(i);
            }
            i = i + 1;
        }
        None
    }

    /// Records progress under `key`: an existing entry gets the new sizes
    /// (and is done when they are equal), otherwise `fresh` is added.
    fn record_progress(&mut self, key: String, fresh: TransInfo)
        requires
            old(self).wf(),
        ensures
            final(self).wf(),
            final(self).data_current_client == old(self).data_current_client,
            final(self).data_intranet_clients == old(self).data_intranet_clients,
            final(self).data_files == old(self).data_files,
            has_key(old(self).data_trans_status@, key@) ==> progress_updated(
                old(self).data_trans_status@,
                final(self).data_trans_status@,
                key@,
                fresh.total_size,
                fresh.trans_size,
            ),
            !has_key(old(self).data_trans_status@, key@) ==> {
                &&& progress_appended(old(self).data_trans_status@, final(self).data_trans_status@, key@)
                &&& final(self).data_trans_status@.last().info == fresh
            },
    {
        match self.find_key(&key) {
            Some(i) => {
                let ghost before = self.data_trans_status@;
                let mut info = self.data_trans_status[i].info.clone();
                info.total_size = fresh.total_size;
                info.trans_size = fresh.trans_size;
                info.is_done = fresh.total_size == fresh.trans_size;
                let entry = TransEntry { key: self.data_trans_status[i].key.clone(), info };
                self.data_trans_status.set(i, entry);
                assert forall|a: int, b: int|
                    0 <= a < b < self.data_trans_status@.len() implies self.data_trans_status@[a].key@
                    != self.data_trans_status@[b].key@ by {
                    assert(before[a].key@ != before[b].key@);
                }
            },
            None => {
                let ghost before = self.data_trans_status@;
                self.data_trans_status.push(TransEntry { key, info: fresh });
                assert(self.data_trans_status@.drop_last() =~= before);
                assert forall|a: int, b: int|
                    0 <= a < b < self.data_trans_status@.len() implies self.data_trans_status@[a].key@
                    != self.data_trans_status@[b].key@ by {
                    if b == before.len() {
                        assert(before[a].key@ != key@);
                    }
                }
            },
        }
    }

    /// What the receiving worker reports does to the state. A transfer
    /// request is handed back (to be shown to the user); progress on a
    /// received file is recorded under `from_file`.
    pub fn on_receiver_event<A>(&mut self, msg: MessageTransHandle<A>) -> (r: Option<(Vec<ReqTransferData>, A)>)
        requires
            old(self).wf(),
        ensures
            final(self).wf(),
            final(self).data_current_client == old(self).data_current_client,
            final(self).data_intranet_clients == old(self).data_intranet_clients,
            final(self).data_files == old(self).data_files,
            match msg {
                MessageTransHandle::ReceiverAsk { reqs, ask_tx } => {
                    &&& r matches Some((q, tx)) && q@ == reqs@ && tx == ask_tx
                    &&& final(self).data_trans_status == old(self).data_trans_status
                },
                MessageTransHandle::ReceiverFile { from, file_name, total_len, trans_len } => {
                    let key = joined(from@, '_', file_name@);
                    &&& r is None
                    &&& has_key(old(self).data_trans_status@, key) ==> progress_updated(
                        old(self).data_trans_status@,
                        final(self).data_trans_status@,
                        key,
                        total_len,
                        trans_len,
                    )
                    &&& !has_key(old(self).data_trans_status@, key) ==> {
                        &&& progress_appended(old(self).data_trans_status@, final(self).data_trans_status@, key)
                        &&& fresh_info(
                            final(self).data_trans_status@.last().info,
                            file_name,
                            from@,
                            Seq::empty(),
                            TransType::Receive,
                            total_len,
                            trans_len,
                        )
                    }
                },
                MessageTransHandle::SendFile { .. } => {
                    &&& r is None
                    &&& final(self).data_trans_status == old(self).data_trans_status
                },
            },
    {
        match msg {
            MessageTransHandle::ReceiverAsk { reqs, ask_tx } => Some((reqs, ask_tx)),
            MessageTransHandle::ReceiverFile { from, file_name, total_len, trans_len } => {
                let key = progress_key(&from, &file_name);
                let fresh = TransInfo {
                    filename: file_name,
                    from,
                    to: String::new(),
                    trans_type: TransType::Receive,
                    total_size: total_len,
                    trans_size: trans_len,
                    is_done: false,
                };
                self.record_progress(key, fresh);
                None
            },
            MessageTransHandle::SendFile { .. } => None,
        }
    }

    /// What the sending worker reports does to the state: progress on a sent
    /// file is recorded under `to_file`.
    pub fn on_sender_event<A>(&mut self, msg: MessageTransHandle<A>)
        requires
            old(self).wf(),
        ensures
            final(self).wf(),
            final(self).data_current_client == old(self).data_current_client,
            final(self).data_intranet_clients == old(self).data_intranet_clients,
            final(self).data_files == old(self).data_files,
            match msg {
                MessageTransHandle::SendFile { to, file_name, total_len, trans_len } => {
                    let key = joined(to@, '_', file_name@);
                    &&& has_key(old(self).data_trans_status@, key) ==> progress_updated(
                        old(self).data_trans_status@,
                        final(self).data_trans_status@,
                        key,
                        total_len,
                        trans_len,
                    )
                    &&& !has_key(old(self).data_trans_status@, key) ==> {
                        &&& progress_appended(old(self).data_trans_status@, final(self).data_trans_status@, key)
                        &&& fresh_info(
                            final(self).data_trans_status@.last().info,
                            file_name,
                            Seq::empty(),
                            to@,
                            TransType::Send,
                            total_len,
                            trans_len,
                        )
                    }
                },
                _ => final(self).data_trans_status == old(self).data_trans_status,
            },
    {
        match msg {
            MessageTransHandle::SendFile { to, file_name, total_len, trans_len } => {
                let key = progress_key(&to, &file_name);
                let fresh = TransInfo {
                    filename: file_name,
                    from: String::new(),
                    to,
                    trans_type: TransType::Send,
                    total_size: total_len,
                    trans_size: trans_len,
                    is_done: false,
                };
                self.record_progress(key, fresh);
            },
            _ => {},
        }
    }

    /// The progress records, in order (what the interface shows).
    pub fn trans_status_list(&self) -> (v: Vec<TransInfo>)
        ensures
            v@ == self.data_trans_status@.map_values(|e: TransEntry| e.info),
    {
        let mut v: Vec<TransInfo> = Vec::new();
        let n = self.data_trans_status.len();
        let mut i: usize = 0;
        while i < n
            invariant
                n == self.data_trans_status@.len(),
                i <= n,
                v@ == self.data_trans_status@.take(i as int).map_values(|e: TransEntry| e.info),
            decreases n - i,
        {
            v.push(self.data_trans_status[i].info.clone());
            assert(self.data_trans_status@.take(i + 1).map_values(|e: TransEntry| e.info) =~= self.data_trans_status@.take(i as int).map_values(|e: TransEntry| e.info).push(self.data_trans_status@[i as int].info));
            i = i + 1;
        }
        assert(self.data_trans_status@.take(n as int) =~= self.data_trans_status@);
        v
    }

    /// Starts a transfer. Refused while a sending job runs; otherwise the
    /// finished progress records are dropped and the sending jobs are handed
    /// out (see `jobs_for`). The queue and the selection stay as they are
    /// until `complete_trans`.
    pub fn start_trans(&mut self, running: &RunningJobs) -> (r: Result<Vec<MessageTransAccept>, CusErr>)
        requires
            old(self).wf(),
        ensures
            final(self).wf(),
            final(self).data_current_client == old(self).data_current_client,
            final(self).data_intranet_clients == old(self).data_intranet_clients,
            final(self).data_files == old(self).data_files,
            running@.len() > 0 ==> {
                &&& r matches Err(e) && e is AnyHowError && e.text() == busy_text()
                &&& final(self).data_trans_status == old(self).data_trans_status
            },
            running@.len() == 0 ==> {
                &&& r matches Ok(jobs) && jobs_for(jobs@, old(self).data_intranet_clients@, old(self).data_files@)
                &&& final(self).data_trans_status@ == not_done(old(self).data_trans_status@)
            },
    {
        if !running.is_empty() {
            let e = CusErr::msg("任务正在执行中");
            proof {
                reveal_strlit("任务正在执行中");
            }
            assert(e.text() =~= busy_text());
            return Err(e);
        }
        let ghost before = self.data_trans_status@;
        let mut kept: Vec<TransEntry> = Vec::new();
        let n = self.data_trans_status.len();
        let mut i: usize = 0;
        while i < n
            invariant
                n == self.data_trans_status@.len(),
                before == self.data_trans_status@,
                i <= n,
                kept@ == not_done(before.take(i as int)),
            decreases n - i,
        {
            assert(before.take(i + 1).drop_last() =~= before.take(i as int));
            if !self.data_trans_status[i].info.is_done {
                let e = TransEntry {
                    key: self.data_trans_status[i].key.clone(),
                    info: self.data_trans_status[i].info.clone(),
                };
                kept.push(e);
            }
            i = i + 1;
        }
        assert(before.take(n as int) =~= before);
        self.data_trans_status = kept;
        proof {
            lemma_not_done_unique(before);
        }
        let mut jobs: Vec<MessageTransAccept> = Vec::new();
        if self.data_files.len() == 0 {
            proof {
                lemma_selected_len(self.data_intranet_clients@);
            }
            return Ok(jobs);
        }
        let ghost clients = self.data_intranet_clients@;
        let nc = self.data_intranet_clients.len();
        let mut k: usize = 0;
        while k < nc
            invariant
                nc == clients.len(),
                clients == self.data_intranet_clients@,
                k <= nc,
                self.data_files@.len() > 0,
                jobs@.len() == selected_clients(clients.take(k as int)).len(),
                forall|j: int|
                    0 <= j < jobs@.len() ==> (#[trigger] jobs@[j] matches MessageTransAccept::CreateJob {
                        to,
                        multi_paths,
                    } && to@ == joined(
                        selected_clients(clients.take(k as int))[j].ip@,
                        ':',
                        decimal(selected_clients(clients.take(k as int))[j].port as nat),
                    ) && multi_paths@ == path_strings(self.data_files@)),
            decreases nc - k,
        {
            assert(clients.take(k + 1).drop_last() =~= clients.take(k as int));
            let c = &self.data_intranet_clients[k];
            if c.selected {
                let to = socket_addr_text(&c.ip, c.port);
                let multi_paths = paths_of(&self.data_files);
                jobs.push(MessageTransAccept::CreateJob { to, multi_paths });
            }
            k = k + 1;
        }
        assert(clients.take(nc as int) =~= clients);
        Ok(jobs)
    }

    /// After the jobs of a transfer were handed to the sending worker: the
    /// queue is emptied and no client stays selected.
    pub fn complete_trans(&mut self)
        requires
            old(self).wf(),
        ensures
            final(self).wf(),
            final(self).data_current_client == old(self).data_current_client,
            final(self).data_trans_status == old(self).data_trans_status,
            final(self).data_files@.len() == 0,
            final(self).data_intranet_clients@.len() == old(self).data_intranet_clients@.len(),
            forall|i: int|
                0 <= i < old(self).data_intranet_clients@.len() ==> #[trigger] final(self).data_intranet_clients@[i]
                    == with_selected(old(self).data_intranet_clients@[i], false),
    {
        self.data_files.clear();
        let n = self.data_intranet_clients.len();
        let mut i: usize = 0;
        while i < n
            invariant
                n == self.data_intranet_clients@.len(),
                n == old(self).data_intranet_clients@.len(),
                i <= n,
                forall|j: int| 0 <= j < i ==> #[trigger] self.data_intranet_clients@[j] == with_selected(old(self).data_intranet_clients@[j], false),
                forall|j: int| i <= j < n ==> #[trigger] self.data_intranet_clients@[j] == old(self).data_intranet_clients@[j],
                self.data_current_client == old(self).data_current_client,
                self.data_trans_status == old(self).data_trans_status,
                self.data_files@.len() == 0,
                keys_unique(self.data_trans_status@),
                names_unique(old(self).data_intranet_clients@),
            decreases n - i,
        {
            let mut c = self.data_intranet_clients[i].clone();
            c.selected = false;
            self.data_intranet_clients.set(i, c);
            i = i + 1;
        }
        assert forall|a: int, b: int| 0 <= a < b < self.data_intranet_clients@.len() implies
            self.data_intranet_clients@[a].name@ != self.data_intranet_clients@[b].name@ by {
            assert(old(self).data_intranet_clients@[a].name@ != old(self).data_intranet_clients@[b].name@);
        }
    }

    /// Records who this machine is: received files are saved to `save_path`,
    /// and it announces itself as `hostname-port`.
    pub fn init_data(&mut self, local_ip: String, port: u16, hostname: &String, save_path: String) -> (c: CurrentClientInfo)
        requires
            old(self).wf(),
        ensures
            final(self).wf(),
            c.local_ip == local_ip,
            c.port == port,
            c.name@ == joined(hostname@, '-', decimal(port as nat)),
            c.save_path == save_path,
            final(self).data_current_client == Some(c),
            final(self).data_intranet_clients == old(self).data_intranet_clients,
            final(self).data_files == old(self).data_files,
            final(self).data_trans_status == old(self).data_trans_status,
    {
        let name = client_name(hostname, port);
        let c = CurrentClientInfo { local_ip, port, name, save_path };
        self.data_current_client = Some(c.clone());
        c
    }

    /// Received files go to `save_dir` from now on (once this machine is
    /// known).
    pub fn pick_selected_path(&mut self, save_dir: String)
        requires
            old(self).wf(),
        ensures
            final(self).wf(),
            final(self).data_intranet_clients == old(self).data_intranet_clients,
            final(self).data_files == old(self).data_files,
            final(self).data_trans_status == old(self).data_trans_status,
            match old(self).data_current_client {
                Some(c) => final(self).data_current_client == Some(
                    CurrentClientInfo {
                        local_ip: c.local_ip,
                        port: c.port,
                        name: c.name,
                        save_path: save_dir,
                    },
                ),
                None => final(self).data_current_client is None,
            },
    {
        match &mut self.data_current_client {
            Some(c) => {
                c.save_path = save_dir;
            },
            None => {},
        }
    }

    /// Discovery resolved the peer `fullname` at the IPv4 addresses `v4`
    /// (in the order the resolver gives them) and `port`: it is added, at the
    /// first address, unless a client of that name is known or it has no
    /// IPv4 address.
    pub fn on_service_resolved(&mut self, fullname: String, v4: &Vec<[u8; 4]>, port: u16)
        requires
            old(self).wf(),
        ensures
            final(self).wf(),
            final(self).data_current_client == old(self).data_current_client,
            final(self).data_files == old(self).data_files,
            final(self).data_trans_status == old(self).data_trans_status,
            (has_name(old(self).data_intranet_clients@, fullname@) || v4@.len() == 0)
                ==> final(self).data_intranet_clients == old(self).data_intranet_clients,
            (!has_name(old(self).data_intranet_clients@, fullname@) && v4@.len() > 0) ==> {
                let c = final(self).data_intranet_clients@.last();
                &&& final(self).data_intranet_clients@.len() == old(self).data_intranet_clients@.len() + 1
                &&& final(self).data_intranet_clients@.drop_last() == old(self).data_intranet_clients@
                &&& c.name == fullname
                &&& c.ip@ == ipv4_text(v4@[0])
                &&& c.port == port
                &&& !c.selected
                &&& c.auto_find
            },
    {
        if self.find_client(&fullname).is_some() || v4.len() == 0 {
            return;
        }
        let ip = ipv4_to_text(v4[0]);
        let ghost before = self.data_intranet_clients@;
        let c = IntranetClientInfo { name: fullname, ip, port, selected: false, auto_find: true };
        proof {
            lemma_push_has_name(before, c, c.name@);
        }
        self.data_intranet_clients.push(c);
        assert(self.data_intranet_clients@.drop_last() =~= before);
    }

    /// Discovery reports that the peer `fullname` of service type
    /// `service_type` went away: for the tool's own service type, the
    /// clients of that name are forgotten.
    pub fn on_service_removed(&mut self, service_type: &String, fullname: &String)
        requires
            old(self).wf(),
        ensures
            final(self).wf(),
            final(self).data_current_client == old(self).data_current_client,
            final(self).data_files == old(self).data_files,
            final(self).data_trans_status == old(self).data_trans_status,
            service_type@ == service_type_text() ==> final(self).data_intranet_clients@ == without_named(
                old(self).data_intranet_clients@,
                fullname@,
            ),
            service_type@ != service_type_text() ==> final(self).data_intranet_clients
                == old(self).data_intranet_clients,
    {
        if *service_type == crate::disc::discover::service_type() {
            self.remove_client(fullname);
        }
    }
}

/// Queuing again only paths that are the same paths as queued ones adds
/// nothing and
/// succeeds, whatever their size lookups gave.
pub proof fn lemma_requeue_adds_nothing(
    existing: Seq<Seq<char>>,
    reqs: Seq<(String, Result<u64, String>)>,
)
    requires
        forall|i: int| 0 <= i < reqs.len() ==> path_queued(existing, #[trigger] reqs[i].0@),
    ensures
        added_files(existing, reqs) == (Seq::<(Seq<char>, Seq<char>, u64)>::empty(), None::<Seq<char>>),
    decreases reqs.len(),
{
    if reqs.len() > 0 {
        assert(path_queued(existing, reqs[0].0@));
        assert forall|i: int| 0 <= i < reqs.drop_first().len() implies path_queued(
            existing,
            #[trigger] reqs.drop_first()[i].0@,
        ) by {
            assert(reqs.drop_first()[i] == reqs[i + 1]);
        }
        lemma_requeue_adds_nothing(existing, reqs.drop_first());
    }
}

/// The selected clients are exactly the clients whose `selected` flag is
/// set, in their order, whatever their other fields (discovered or added by
/// hand): `selected_clients` is the standard filter on that flag.
pub proof fn lemma_selected_clients_are_the_selected(clients: Seq<IntranetClientInfo>)
    ensures
        selected_clients(clients) == clients.filter(|c: IntranetClientInfo| c.selected),
        forall|c: IntranetClientInfo|
            c.selected ==> #[trigger] selected_clients(clients.push(c)) == selected_clients(
                clients,
            ).push(c),
    decreases clients.len(),
{
    reveal_with_fuel(Seq::filter, 1);
    if clients.len() > 0 {
        lemma_selected_clients_are_the_selected(clients.drop_last());
    }
    assert forall|c: IntranetClientInfo|
        c.selected implies #[trigger] selected_clients(clients.push(c)) == selected_clients(
            clients,
        ).push(c) by {
        assert(clients.push(c).drop_last() =~= clients);
    }
}

/// Removing the clients called `name` keeps every other client exactly as it
/// was, all fields included, in order: `without_named` is the standard filter
/// on the name.
pub proof fn lemma_without_named_keeps_the_others(clients: Seq<IntranetClientInfo>, name: Seq<char>)
    ensures
        without_named(clients, name) == clients.filter(|c: IntranetClientInfo| c.name@ != name),
        forall|c: IntranetClientInfo|
            c.name@ != name ==> #[trigger] without_named(clients.push(c), name) == without_named(
                clients,
                name,
            ).push(c),
    decreases clients.len(),
{
    reveal_with_fuel(Seq::filter, 1);
    if clients.len() > 0 {
        lemma_without_named_keeps_the_others(clients.drop_last(), name);
    }
    assert forall|c: IntranetClientInfo|
        c.name@ != name implies #[trigger] without_named(clients.push(c), name) == without_named(
            clients,
            name,
        ).push(c) by {
        assert(clients.push(c).drop_last() =~= clients);
    }
}

/// Starting a transfer keeps exactly the records that are not done, in
/// order: `not_done` is the standard filter on the done flag.
pub proof fn lemma_not_done_is_filter(entries: Seq<TransEntry>)
    ensures
        not_done(entries) == entries.filter(|e: TransEntry| !e.info.is_done),
    decreases entries.len(),
{
    reveal_with_fuel(Seq::filter, 1);
    if entries.len() > 0 {
        lemma_not_done_is_filter(entries.drop_last());
    }
}

/// A progress update is done exactly when everything has been transferred:
/// the updated record carries the new sizes, keeps its names and direction,
/// and is done if and only if the transferred size equals the total (so an
/// update with less than the total is not done).
pub proof fn lemma_progress_done_iff_complete(
    before: Seq<TransEntry>,
    after: Seq<TransEntry>,
    key: Seq<char>,
    total: u64,
    trans: u64,
)
    requires
        has_key(before, key),
        progress_updated(before, after, key, total, trans),
    ensures
        after.len() == before.len(),
        exists|i: int|
            0 <= i < after.len() && after[i].key@ == key && after[i].info.total_size == total
                && after[i].info.trans_size == trans && after[i].info.filename
                == before[i].info.filename && after[i].info.trans_type == before[i].info.trans_type
                && (after[i].info.is_done <==> total == trans),
        trans < total ==> forall|i: int|
            0 <= i < after.len() && before[i].key@ == key ==> !(#[trigger] after[i]).info.is_done,
{
    let i = choose|i: int| 0 <= i < before.len() && before[i].key@ == key;
    assert(after == before.update(
        i,
        TransEntry { key: before[i].key, info: with_progress(before[i].info, total, trans) },
    ));
    assert(after[i].key@ == key);
}

/// What adding one request does: a path that is the same path as a queued
/// one is skipped; otherwise a path without a name stops with the name
/// error, a failed size lookup stops with its message, and a path with a
/// name and a size is added as (name, path, size) whatever the names of
/// the queued files.
pub proof fn lemma_added_files_single(
    existing: Seq<Seq<char>>,
    path: String,
    size: Result<u64, String>,
)
    ensures
        added_files(existing, Seq::empty()) == (
            Seq::<(Seq<char>, Seq<char>, u64)>::empty(),
            None::<Seq<char>>,
        ),
        path_queued(existing, path@) ==> added_files(existing, seq![(path, size)]) == (
            Seq::<(Seq<char>, Seq<char>, u64)>::empty(),
            None::<Seq<char>>,
        ),
        !path_queued(existing, path@) && path_file_name(path@) is None ==> added_files(
            existing,
            seq![(path, size)],
        ) == (Seq::<(Seq<char>, Seq<char>, u64)>::empty(), Some(no_file_name_text())),
        !path_queued(existing, path@) && path_file_name(path@) is Some ==> match size {
            Ok(sz) => added_files(existing, seq![(path, size)]) == (
                seq![(path_file_name(path@)->0, path@, sz)],
                None::<Seq<char>>,
            ),
            Err(m) => added_files(existing, seq![(path, size)]) == (
                Seq::<(Seq<char>, Seq<char>, u64)>::empty(),
                Some(m@),
            ),
        },
{
    let r = seq![(path, size)];
    assert(r.drop_first() =~= Seq::<(String, Result<u64, String>)>::empty());
    assert(added_files(existing, r.drop_first()) == (
        Seq::<(Seq<char>, Seq<char>, u64)>::empty(),
        None::<Seq<char>>,
    ));
    if !path_queued(existing, path@) && path_file_name(path@) is Some {
        match size {
            Ok(sz) => {
                assert(seq![(path_file_name(path@)->0, path@, sz)] + Seq::<
                    (Seq<char>, Seq<char>, u64),
                >::empty() =~= seq![(path_file_name(path@)->0, path@, sz)]);
            },
            Err(m) => {},
        }
    }
}

/// Requests are handled one after another: the records added for `first`
/// followed by `second` are those added for `first`, then, unless `first`
/// stopped with an error, those added for `second`; the error is the first
/// one met.
pub proof fn lemma_added_files_append(
    existing: Seq<Seq<char>>,
    first: Seq<(String, Result<u64, String>)>,
    second: Seq<(String, Result<u64, String>)>,
)
    ensures
        added_files(existing, first + second) == (match added_files(existing, first).1 {
            None => (
                added_files(existing, first).0 + added_files(existing, second).0,
                added_files(existing, second).1,
            ),
            Some(e) => (added_files(existing, first).0, Some(e)),
        }),
    decreases first.len(),
{
    if first.len() == 0 {
        assert(first + second =~= second);
        assert(Seq::<(Seq<char>, Seq<char>, u64)>::empty() + added_files(existing, second).0
            =~= added_files(existing, second).0);
    } else {
        assert((first + second).drop_first() =~= first.drop_first() + second);
        assert((first + second)[0] == first[0]);
        lemma_added_files_append(existing, first.drop_first(), second);
        let path = first[0].0;
        if !path_queued(existing, path@) {
            match path_file_name(path@) {
                None => {},
                Some(name) => match first[0].1 {
                    Err(m) => {},
                    Ok(sz) => {
                        let more = added_files(existing, first.drop_first());
                        let more2 = added_files(existing, second);
                        assert(seq![(name, path@, sz)] + (more.0 + more2.0) =~= (seq![
                            (name, path@, sz),
                        ] + more.0) + more2.0);
                    },
                },
            }
        }
    }
}

/// The records of the files from position `base` on, in order.
proof fn lemma_records(files: Seq<FileInfo>, base: int)
    requires
        0 <= base <= files.len(),
    ensures
        forall|j: int|
            0 <= j < files.len() - base ==> file_record(#[trigger] files[base + j])
                == files.skip(base).map_values(|f: FileInfo| file_record(f))[j],
{
    assert forall|j: int| 0 <= j < files.len() - base implies file_record(#[trigger] files[base + j])
        == files.skip(base).map_values(|f: FileInfo| file_record(f))[j] by {
        assert(files.skip(base)[j] == files[base + j]);
    }
}

/// The paths of the queued files.
fn paths_of(files: &Vec<FileInfo>) -> (v: Vec<String>)
    ensures
        v@ == path_strings(files@),
{
    let mut v: Vec<String> = Vec::new();
    let n = files.len();
    let mut i: usize = 0;
    while i < n
        invariant
            n == files@.len(),
            i <= n,
            v@ == path_strings(files@.take(i as int)),
        decreases n - i,
    {
        v.push(files[i].file.clone());
        assert(path_strings(files@.take(i + 1)) =~= path_strings(files@.take(i as int)).push(files@[i as int].file));
        i = i + 1;
    }
    assert(files@.take(n as int) =~= files@);
    v
}

/// Dropping finished entries keeps keys unique.
pub proof fn lemma_not_done_unique(entries: Seq<TransEntry>)
    requires
        keys_unique(entries),
    ensures
        keys_unique(not_done(entries)),
        forall|k: Seq<char>| has_key(not_done(entries), k) ==> has_key(entries, k),
        forall|i: int| 0 <= i < not_done(entries).len() ==> !(#[trigger] not_done(entries)[i]).info.is_done,
    decreases entries.len(),
{
    if entries.len() > 0 {
        let rest = entries.drop_last();
        let last = entries.last();
        lemma_not_done_unique(rest);
        let w = not_done(rest);
        assert forall|k: Seq<char>| has_key(not_done(entries), k) implies has_key(entries, k) by {
            let j = choose|j: int| 0 <= j < not_done(entries).len() && not_done(entries)[j].key@ == k;
            if j < w.len() {
                assert(w[j].key@ == k);
                assert(has_key(w, k));
                assert(has_key(rest, k));
                let j2 = choose|j2: int| 0 <= j2 < rest.len() && rest[j2].key@ == k;
                assert(rest[j2] == entries[j2]);
            } else {
                assert(entries[entries.len() - 1].key@ == k);
            }
        }
        if !last.info.is_done {
            assert forall|a: int, b: int| 0 <= a < b < not_done(entries).len() implies
                not_done(entries)[a].key@ != not_done(entries)[b].key@ by {
                if b == w.len() {
                    if w[a].key@ == last.key@ {
                        assert(has_key(w, last.key@));
                        assert(has_key(rest, last.key@));
                        let j2 = choose|j2: int| 0 <= j2 < rest.len() && rest[j2].key@ == last.key@;
                        assert(rest[j2] == entries[j2]);
                        assert(entries[j2].key@ == entries[entries.len() - 1].key@);
                    }
                } else {
                    assert(w[a] == not_done(entries)[a]);
                    assert(w[b] == not_done(entries)[b]);
                }
            }
            assert forall|i: int| 0 <= i < not_done(entries).len() implies !(#[trigger] not_done(entries)[i]).info.is_done by {
                if i < w.len() {
                    assert(w[i] == not_done(entries)[i]);
                }
            }
        }
    }
}

/// There are no more selected clients than clients.
pub proof fn lemma_selected_len(clients: Seq<IntranetClientInfo>)
    ensures
        selected_clients(clients).len() <= clients.len(),
        forall|i: int| 0 <= i < selected_clients(clients).len() ==> (#[trigger] selected_clients(clients)[i]).selected,
    decreases clients.len(),
{
    if clients.len() > 0 {
        lemma_selected_len(clients.drop_last());
        let w = selected_clients(clients.drop_last());
        assert forall|i: int| 0 <= i < selected_clients(clients).len() implies (#[trigger] selected_clients(clients)[i]).selected by {
            if i < w.len() {
                assert(w[i] == selected_clients(clients)[i]);
            }
        }
    }
}

/// Whether `path` is the same path as one of `paths`.
fn path_is_queued(paths: &Vec<String>, path: &String) -> (b: bool)
    ensures
        b == path_queued(paths@.map_values(|p: String| p@), path@),
        paths@.map_values(|p: String| p@).contains(path@) ==> b,
{
    let ghost ps = paths@.map_values(|p: String| p@);
    let n = paths.len();
    let mut i: usize = 0;
    while i < n
        invariant
            n == paths@.len(),
            ps == paths@.map_values(|p: String| p@),
            i <= n,
            forall|j: int| 0 <= j < i ==> !same_path(#[trigger] ps[j], path@),
            forall|j: int| 0 <= j < i ==> #[trigger] ps[j] != path@,
        decreases n - i,
    {
        if paths_equal(paths[i].as_str(), path.as_str()) {
            assert(same_path(ps[i as int], path@));
            return true;
        }
        i = i + 1;
    }
    proof {
        if ps.contains(path@) {
            let j = choose|j: int| 0 <= j < ps.len() && ps[j] == path@;
            assert(ps[j] != path@);
        }
    }
    false
}

/// Names in a client list with one more client at its end.
pub proof fn lemma_push_has_name(s: Seq<IntranetClientInfo>, c: IntranetClientInfo, x: Seq<char>)
    ensures
        has_name(s.push(c), x) <==> (has_name(s, x) || c.name@ == x),
        names_unique(s) && !has_name(s, c.name@) ==> names_unique(s.push(c)),
{
    if has_name(s.push(c), x) {
        let k = choose|k: int| 0 <= k < s.push(c).len() && s.push(c)[k].name@ == x;
        if k < s.len() {
            assert(s[k].name@ == x);
        }
    }
    if has_name(s, x) {
        let k = choose|k: int| 0 <= k < s.len() && s[k].name@ == x;
        assert(s.push(c)[k].name@ == x);
    }
    if c.name@ == x {
        assert(s.push(c)[s.len() as int].name@ == x);
    }
    if names_unique(s) && !has_name(s, c.name@) {
        assert forall|i: int, j: int| 0 <= i < j < s.push(c).len() implies s.push(c)[i].name@
            != s.push(c)[j].name@ by {
            if j == s.len() {
                if s[i].name@ == c.name@ {
                    assert(has_name(s, c.name@));
                }
            }
        }
    }
}

/// What `without_named` keeps is a subsequence, so unique names stay unique;
/// the name taken out is gone and every other name is kept.
pub proof fn lemma_without_named_unique(clients: Seq<IntranetClientInfo>, name: Seq<char>)
    requires
        names_unique(clients),
    ensures
        names_unique(without_named(clients, name)),
        !has_name(without_named(clients, name), name),
        forall|x: Seq<char>|
            x != name ==> (has_name(without_named(clients, name), x) <==> has_name(clients, x)),
    decreases clients.len(),
{
    if clients.len() > 0 {
        let rest = clients.drop_last();
        let last = clients.last();
        assert(clients =~= rest.push(last));
        assert(names_unique(rest));
        lemma_without_named_unique(rest, name);
        let w = without_named(rest, name);
        assert forall|x: Seq<char>| x != name implies (has_name(without_named(clients, name), x)
            <==> has_name(clients, x)) by {
            lemma_push_has_name(rest, last, x);
            lemma_push_has_name(w, last, x);
        }
        lemma_push_has_name(w, last, name);
        if last.name@ != name {
            lemma_push_has_name(rest, last, last.name@);
            if has_name(rest, last.name@) {
                let k = choose|k: int| 0 <= k < rest.len() && rest[k].name@ == last.name@;
                assert(clients[k].name@ == clients[clients.len() - 1].name@);
            }
            lemma_push_has_name(w, last, last.name@);
        }
    }
}

} // verus!
