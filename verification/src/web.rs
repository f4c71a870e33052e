//! The web page: the tasks it knows, what it is sent, and what it tells.
use vstd::prelude::*;
use vstd::utf8::{decode_utf8, valid_utf8};
use crate::api::{member_text, optional_bytes};
use crate::cli::RunSettings;
use crate::outside::{
    json_member, json_string_member, optional_text, random_uuid, random_uuid_text, text_of,
};
use crate::text::{blank, is_blank, same_text, trim, trimmed, white_space};

verus! {

// ---------------------------------------------------------------------------
// Messages
// ---------------------------------------------------------------------------

/// A message to a page, of type `log`, `status` or `error`.
#[derive(Debug)]
pub struct WsMessage {
    pub task_id: String,
    pub msg_type: String,
    pub content: String,
}

/// The mathematical content of a [`WsMessage`].
#[verifier::ext_equal]
pub ghost struct MessageModel {
    pub task_id: Seq<char>,
    pub msg_type: Seq<char>,
    pub content: Seq<char>,
}

impl View for WsMessage {
    type V = MessageModel;

    open spec fn view(&self) -> MessageModel {
        MessageModel {
            task_id: self.task_id@,
            msg_type: self.msg_type@,
            content: self.content@,
        }
    }
}

impl Clone for WsMessage {
    fn clone(&self) -> (r: Self)
        ensures
            r@ == self@,
    {
        WsMessage {
            task_id: self.task_id.clone(),
            msg_type: self.msg_type.clone(),
            content: self.content.clone(),
        }
    }
}

/// The models of messages.
pub open spec fn message_models(v: Seq<WsMessage>) -> Seq<MessageModel> {
    Seq::new(v.len(), |i: int| v[i]@)
}

/// A line of the log.
pub open spec fn log_line(task_id: Seq<char>, content: Seq<char>) -> MessageModel {
    MessageModel { task_id, msg_type: "log"@, content }
}

/// A status.
pub open spec fn status_line(task_id: Seq<char>, content: Seq<char>) -> MessageModel {
    MessageModel { task_id, msg_type: "status"@, content }
}

fn message(task_id: &str, msg_type: &str, content: &str) -> (r: WsMessage)
    ensures
        r@ == (MessageModel { task_id: task_id@, msg_type: msg_type@, content: content@ }),
{
    WsMessage {
        task_id: task_id.to_string(),
        msg_type: msg_type.to_string(),
        content: content.to_string(),
    }
}

/// The message for a line of the log.
pub fn log_message(task_id: &str, content: &str) -> (r: WsMessage)
    ensures
        r@ == log_line(task_id@, content@),
{
    message(task_id, "log", content)
}

/// What a task is to be called.
#[derive(Debug)]
pub struct TaskConfig {
    pub task_name: String,
}

/// A folder that is to be shown.
#[derive(Debug)]
pub struct OpenFolderRequest {
    pub path: String,
}

/// What is told of a task.
#[derive(Debug)]
pub struct TaskInfo {
    pub id: String,
    pub name: String,
    pub status: String,
    pub created_at: i64,
}

// ---------------------------------------------------------------------------
// The tasks
// ---------------------------------------------------------------------------

/// A task that was started from the page.
#[derive(Debug)]
pub struct TaskRuntime {
    pub id: String,
    /// The subtitles and the recording.
    pub files: (Option<String>, Option<String>),
    pub name: String,
    pub status: String,
    /// When it was started, in seconds.
    pub created_at: i64,
}

/// The mathematical content of a [`TaskRuntime`].
#[verifier::ext_equal]
pub ghost struct RuntimeModel {
    pub id: Seq<char>,
    pub srt: Option<Seq<char>>,
    pub audio: Option<Seq<char>>,
    pub name: Seq<char>,
    pub status: Seq<char>,
    pub created_at: int,
}

impl View for TaskRuntime {
    type V = RuntimeModel;

    open spec fn view(&self) -> RuntimeModel {
        RuntimeModel {
            id: self.id@,
            srt: optional_text(self.files.0),
            audio: optional_text(self.files.1),
            name: self.name@,
            status: self.status@,
            created_at: self.created_at as int,
        }
    }
}

/// What is told of a task is what is known of it.
pub open spec fn info_of(info: TaskInfo, task: RuntimeModel) -> bool {
    &&& info.id@ == task.id
    &&& info.name@ == task.name
    &&& info.status@ == task.status
    &&& info.created_at == task.created_at
}

/// There is a task with this identifier.
spec fn known(tasks: Seq<TaskRuntime>, id: Seq<char>) -> bool {
    exists|i: int| 0 <= i < tasks.len() && (#[trigger] tasks[i]).id@ == id
}

/// Where the task with this identifier stands.
spec fn place_of(tasks: Seq<TaskRuntime>, id: Seq<char>) -> int {
    choose|i: int| 0 <= i < tasks.len() && (#[trigger] tasks[i]).id@ == id
}

/// Tasks, each under its identifier.
#[derive(Debug)]
struct TaskTable {
    tasks: Vec<TaskRuntime>,
}

impl View for TaskTable {
    type V = Map<Seq<char>, RuntimeModel>;

    closed spec fn view(&self) -> Map<Seq<char>, RuntimeModel> {
        Map::new(
            |id: Seq<char>| known(self.tasks@, id),
            |id: Seq<char>| self.tasks@[place_of(self.tasks@, id)]@,
        )
    }
}

impl TaskTable {
    /// No identifier occurs twice.
    spec fn inv(&self) -> bool {
        forall|i: int, j: int|
            0 <= i < j < self.tasks@.len() ==> (#[trigger] self.tasks@[i]).id@ != (
            #[trigger] self.tasks@[j]).id@
    }

    proof fn lemma_at(&self, i: int)
        requires
            self.inv(),
            0 <= i < self.tasks@.len(),
        ensures
            self@.contains_key(self.tasks@[i].id@),
            self@[self.tasks@[i].id@] == self.tasks@[i]@,
            place_of(self.tasks@, self.tasks@[i].id@) == i,
    {
        let id = self.tasks@[i].id@;
        assert(known(self.tasks@, id));
        let k = place_of(self.tasks@, id);
        assert(self.tasks@[k].id@ == self.tasks@[i].id@);
    }

    fn new() -> (r: Self)
        ensures
            r.inv(),
            r@ == Map::<Seq<char>, RuntimeModel>::empty(),
    {
        let r = TaskTable { tasks: Vec::new() };
        assert(r@ =~= Map::<Seq<char>, RuntimeModel>::empty());
        r
    }

    fn find(&self, id: &str) -> (r: Option<usize>)
        ensures
            match r {
                Some(i) => i < self.tasks@.len() && self.tasks@[i as int].id@ == id@,
                None => !known(self.tasks@, id@),
            },
    {
        let mut i: usize = 0;
        while i < self.tasks.len()
            invariant
                i <= self.tasks@.len(),
                forall|j: int| 0 <= j < i ==> (#[trigger] self.tasks@[j]).id@ != id@,
            decreases self.tasks@.len() - i,
        {
            if same_text(self.tasks[i].id.as_str(), id) {
                return Some(i);
            }
            i += 1;
        }
        None
    }

    fn insert(&mut self, task: TaskRuntime)
        requires
            old(self).inv(),
        ensures
            final(self).inv(),
            final(self)@ == old(self)@.insert(task.id@, task@),
    {
        let ghost before = *self;
        match self.find(task.id.as_str()) {
            Some(i) => {
                let ghost id = task.id@;
                self.tasks.set(i, task);
                proof {
                    assert(self.inv());
                    self.lemma_at(i as int);
                    assert forall|k: Seq<char>| self@.contains_key(k) <==> before@.insert(
                        id,
                        task@,
                    ).contains_key(k) by {
                        if known(before.tasks@, k) {
                            let j = place_of(before.tasks@, k);
                            assert(self.tasks@[j].id@ == k);
                        }
                        if known(self.tasks@, k) {
                            let j = place_of(self.tasks@, k);
                            assert(before.tasks@[j].id@ == k);
                        }
                    }
                    assert forall|k: Seq<char>| self@.contains_key(k) implies self@[k]
                        == before@.insert(id, task@)[k] by {
                        let j = place_of(self.tasks@, k);
                        self.lemma_at(j);
                        before.lemma_at(j);
                    }
                    assert(self@ =~= before@.insert(id, task@));
                }
            },
            None => {
                let ghost id = task.id@;
                let ghost model = task@;
                self.tasks.push(task);
                proof {
                    let n = before.tasks@.len() as int;
                    assert forall|i: int, j: int| 0 <= i < j < self.tasks@.len() implies (
                    #[trigger] self.tasks@[i]).id@ != (#[trigger] self.tasks@[j]).id@ by {
                        assert(self.tasks@[i] == before.tasks@[i]);
                        if j < n {
                            assert(self.tasks@[j] == before.tasks@[j]);
                        }
                    }
                    self.lemma_at(n);
                    assert forall|k: Seq<char>| self@.contains_key(k) <==> before@.insert(
                        id,
                        model,
                    ).contains_key(k) by {
                        if known(before.tasks@, k) {
                            let j = place_of(before.tasks@, k);
                            assert(self.tasks@[j].id@ == k);
                        }
                        if known(self.tasks@, k) {
                            let j = place_of(self.tasks@, k);
                            if j < n {
                                assert(before.tasks@[j].id@ == k);
                            }
                        }
                    }
                    assert forall|k: Seq<char>| self@.contains_key(k) implies self@[k]
                        == before@.insert(id, model)[k] by {
                        let j = place_of(self.tasks@, k);
                        self.lemma_at(j);
                        if j < n {
                            before.lemma_at(j);
                        }
                    }
                    assert(self@ =~= before@.insert(id, model));
                }
            },
        }
    }

    fn get(&self, id: &str) -> (r: Option<&TaskRuntime>)
        requires
            self.inv(),
        ensures
            match r {
                Some(t) => self@.contains_key(id@) && t@ == self@[id@],
                None => !self@.contains_key(id@),
            },
    {
        match self.find(id) {
            Some(i) => {
                proof {
                    self.lemma_at(i as int);
                }
                Some(&self.tasks[i])
            },
            None => None,
        }
    }

    fn remove(&mut self, id: &str)
        requires
            old(self).inv(),
        ensures
            final(self).inv(),
            final(self)@ == old(self)@.remove(id@),
    {
        let ghost before = *self;
        match self.find(id) {
            Some(i) => {
                proof {
                    before.lemma_at(i as int);
                }
                self.tasks.remove(i);
                proof {
                    assert(self.tasks@ =~= before.tasks@.remove(i as int));
                    assert forall|a: int, b: int| 0 <= a < b < self.tasks@.len() implies (
                    #[trigger] self.tasks@[a]).id@ != (#[trigger] self.tasks@[b]).id@ by {
                        let a2 = if a < i {
                            a
                        } else {
                            a + 1
                        };
                        let b2 = if b < i {
                            b
                        } else {
                            b + 1
                        };
                        assert(self.tasks@[a] == before.tasks@[a2]);
                        assert(self.tasks@[b] == before.tasks@[b2]);
                    }
                    assert forall|k: Seq<char>| self@.contains_key(k) <==> before@.remove(
                        id@,
                    ).contains_key(k) by {
                        if known(before.tasks@, k) && k != id@ {
                            let j = place_of(before.tasks@, k);
                            if j < i {
                                assert(self.tasks@[j].id@ == k);
                            } else {
                                assert(self.tasks@[j - 1].id@ == k);
                            }
                        }
                        if known(self.tasks@, k) {
                            let j = place_of(self.tasks@, k);
                            let j2 = if j < i {
                                j
                            } else {
                                j + 1
                            };
                            assert(before.tasks@[j2].id@ == k);
                            assert(before.tasks@[i as int].id@ == id@);
                        }
                    }
                    assert forall|k: Seq<char>| self@.contains_key(k) implies self@[k]
                        == before@.remove(id@)[k] by {
                        let j = place_of(self.tasks@, k);
                        let j2 = if j < i {
                            j
                        } else {
                            j + 1
                        };
                        self.lemma_at(j);
                        before.lemma_at(j2);
                    }
                    assert(self@ =~= before@.remove(id@));
                }
            },
            None => {
                assert(self@ =~= before@.remove(id@));
            },
        }
    }

    fn set_status(&mut self, id: &str, status: &str)
        requires
            old(self).inv(),
        ensures
            final(self).inv(),
            final(self)@ == with_status(old(self)@, id@, status@),
    {
        let ghost before = *self;
        match self.find(id) {
            Some(i) => {
                let task = &self.tasks[i];
                let changed = TaskRuntime {
                    id: task.id.clone(),
                    files: (task.files.0.clone(), task.files.1.clone()),
                    name: task.name.clone(),
                    status: status.to_string(),
                    created_at: task.created_at,
                };
                proof {
                    before.lemma_at(i as int);
                    assert(changed@ == RuntimeModel { status: status@, ..before@[id@] });
                }
                self.insert(changed);
            },
            None => {},
        }
    }

    fn list(&self) -> (r: Vec<TaskInfo>)
        requires
            self.inv(),
        ensures
            forall|i: int| #![trigger r@[i]]
                0 <= i < r@.len() ==> self@.contains_key(r@[i].id@) && info_of(
                    r@[i],
                    self@[r@[i].id@],
                ),
            forall|i: int, j: int|
                0 <= i < j < r@.len() ==> (#[trigger] r@[i]).id@ != (#[trigger] r@[j]).id@,
            forall|id: Seq<char>| #[trigger]
                self@.contains_key(id) ==> exists|i: int|
                    0 <= i < r@.len() && (#[trigger] r@[i]).id@ == id,
    {
        let mut r: Vec<TaskInfo> = Vec::new();
        let mut i: usize = 0;
        while i < self.tasks.len()
            invariant
                i <= self.tasks@.len(),
                r@.len() == i,
                forall|j: int| 0 <= j < i ==> info_of(#[trigger] r@[j], self.tasks@[j]@),
            decreases self.tasks@.len() - i,
        {
            let task = &self.tasks[i];
            r.push(
                TaskInfo {
                    id: task.id.clone(),
                    name: task.name.clone(),
                    status: task.status.clone(),
                    created_at: task.created_at,
                },
            );
            i += 1;
        }
        proof {
            assert forall|i: int| #![trigger r@[i]] 0 <= i < r@.len() implies self@.contains_key(
                r@[i].id@,
            ) && info_of(r@[i], self@[r@[i].id@]) by {
                self.lemma_at(i);
            }
            assert forall|i: int, j: int| 0 <= i < j < r@.len() implies (#[trigger] r@[i]).id@ != (
            #[trigger] r@[j]).id@ by {
                assert(self.tasks@[i].id@ != self.tasks@[j].id@);
            }
            assert forall|id: Seq<char>| #[trigger] self@.contains_key(id) implies exists|i: int|
                0 <= i < r@.len() && (#[trigger] r@[i]).id@ == id by {
                let k = place_of(self.tasks@, id);
                assert(r@[k].id@ == id);
            }
        }
        r
    }
}

/// The tasks that were started from the page.
#[derive(Debug)]
pub struct AppState {
    table: TaskTable,
}

impl View for AppState {
    type V = Map<Seq<char>, RuntimeModel>;

    closed spec fn view(&self) -> Map<Seq<char>, RuntimeModel> {
        self.table@
    }
}

impl AppState {
    #[verifier::type_invariant]
    spec fn sound(self) -> bool {
        self.table.inv()
    }

    /// There are no tasks yet.
    pub fn new() -> (r: Self)
        ensures
            r@ == Map::<Seq<char>, RuntimeModel>::empty(),
    {
        let table = TaskTable::new();
        AppState { table }
    }

    /// Takes the tasks out, and leaves none.
    fn lend(&mut self) -> (r: TaskTable)
        ensures
            r.inv(),
            r@ == old(self)@,
    {
        proof {
            use_type_invariant(&*self);
        }
        let mut table = TaskTable::new();
        std::mem::swap(&mut table, &mut self.table);
        table
    }

    /// Takes a task in, in place of one with the same identifier.
    pub fn insert(&mut self, task: TaskRuntime)
        ensures
            final(self)@ == old(self)@.insert(task.id@, task@),
    {
        let mut table = self.lend();
        table.insert(task);
        self.table = table;
    }

    /// The task with this identifier.
    pub fn get(&self, id: &str) -> (r: Option<&TaskRuntime>)
        ensures
            match r {
                Some(t) => self@.contains_key(id@) && t@ == self@[id@],
                None => !self@.contains_key(id@),
            },
    {
        proof {
            use_type_invariant(self);
        }
        self.table.get(id)
    }

    /// Forgets a task, and tells which directory is to be deleted.
    pub fn delete_task(&mut self, id: &str) -> (r: String)
        ensures
            final(self)@ == old(self)@.remove(id@),
            r@ == upload_dir(id@),
    {
        let mut table = self.lend();
        table.remove(id);
        self.table = table;
        dir_of(id)
    }

    /// Sets the status of a task, if there is one with this identifier.
    pub fn set_status(&mut self, id: &str, status: &str)
        ensures
            final(self)@ == with_status(old(self)@, id@, status@),
    {
        let mut table = self.lend();
        table.set_status(id, status);
        self.table = table;
    }

    /// What is told of all tasks.
    pub fn list_tasks(&self) -> (r: Vec<TaskInfo>)
        ensures
            forall|i: int| #![trigger r@[i]]
                0 <= i < r@.len() ==> self@.contains_key(r@[i].id@) && info_of(
                    r@[i],
                    self@[r@[i].id@],
                ),
            forall|i: int, j: int|
                0 <= i < j < r@.len() ==> (#[trigger] r@[i]).id@ != (#[trigger] r@[j]).id@,
            forall|id: Seq<char>| #[trigger]
                self@.contains_key(id) ==> exists|i: int|
                    0 <= i < r@.len() && (#[trigger] r@[i]).id@ == id,
    {
        proof {
            use_type_invariant(self);
        }
        self.table.list()
    }
}

/// The tasks, with another status for one of them.
pub open spec fn with_status(
    tasks: Map<Seq<char>, RuntimeModel>,
    id: Seq<char>,
    status: Seq<char>,
) -> Map<Seq<char>, RuntimeModel> {
    if tasks.contains_key(id) {
        tasks.insert(id, RuntimeModel { status, ..tasks[id] })
    } else {
        tasks
    }
}

// ---------------------------------------------------------------------------
// Subscriptions
// ---------------------------------------------------------------------------

/// What a page asks to be told of: what stands under `task_id` if `subscribe` stands under `action`.
pub open spec fn subscribed(
    action: Option<Option<Seq<char>>>,
    task_id: Option<Option<Seq<char>>>,
) -> Option<Seq<char>> {
    if action == Some(Some("subscribe"@)) {
        match task_id {
            Some(id) => id,
            None => None,
        }
    } else {
        None
    }
}

/// Decides on a message of a page that was taken apart: what stands under `action` and under
/// `task_id`.
pub fn decide_subscription(action: Option<Option<String>>, task_id: Option<Option<String>>) -> (r:
    Option<String>)
    ensures
        optional_text(r) == subscribed(member_text(action), member_text(task_id)),
{
    match action {
        Some(Some(a)) => {
            if same_text(a.as_str(), "subscribe") {
                return match task_id {
                    Some(id) => id,
                    None => None,
                };
            }
        },
        _ => {},
    }
    None
}

/// Reads a message of a page.
pub fn read_subscription(text: &Vec<u8>) -> (r: Option<String>)
    ensures
        optional_text(r) == subscribed(
            json_string_member(text@, "action"@),
            json_string_member(text@, "task_id"@),
        ),
{
    let action: Option<Option<String>> = json_member(text.as_slice(), "action").ok();
    let task_id: Option<Option<String>> = json_member(text.as_slice(), "task_id").ok();
    decide_subscription(action, task_id)
}

/// What comes from a page.
#[derive(Debug)]
pub enum SocketEvent {
    /// A text.
    Text(Vec<u8>),
    /// The page goes away.
    Close,
    /// The connection is broken.
    Broken,
    /// Anything else.
    Other,
}

/// What is to be done for a page.
#[derive(Debug)]
pub enum SocketAction {
    /// Nothing.
    Ignore,
    /// Send this message, and from now on all that are for the same task.
    Subscribe(WsMessage),
    /// Stop listening.
    Stop,
}

/// The mathematical content of a [`SocketAction`].
#[verifier::ext_equal]
pub ghost enum SocketModel {
    Ignore,
    Subscribe(MessageModel),
    Stop,
}

impl View for SocketAction {
    type V = SocketModel;

    open spec fn view(&self) -> SocketModel {
        match self {
            SocketAction::Ignore => SocketModel::Ignore,
            SocketAction::Subscribe(m) => SocketModel::Subscribe(m@),
            SocketAction::Stop => SocketModel::Stop,
        }
    }
}

/// What is to be done for a page that asks to be told of a task: it is told the status at once.
pub open spec fn answer(tasks: Map<Seq<char>, RuntimeModel>, id: Option<Seq<char>>) -> SocketModel {
    match id {
        Some(id) => if tasks.contains_key(id) {
            SocketModel::Subscribe(status_line(id, tasks[id].status))
        } else {
            SocketModel::Ignore
        },
        None => SocketModel::Ignore,
    }
}

impl AppState {
    /// Decides what is to be done for a page that asks to be told of a task.
    pub fn answer_subscription(&self, id: Option<String>) -> (r: SocketAction)
        ensures
            r@ == answer(self@, optional_text(id)),
    {
        match id {
            Some(id) => match self.get(id.as_str()) {
                Some(task) => SocketAction::Subscribe(
                    message(id.as_str(), "status", task.status.as_str()),
                ),
                None => SocketAction::Ignore,
            },
            None => SocketAction::Ignore,
        }
    }

    /// Decides what is to be done for a page.
    pub fn handle_socket(&self, event: SocketEvent) -> (r: SocketAction)
        ensures
            r@ == match event {
                SocketEvent::Text(text) => answer(
                    self@,
                    subscribed(
                        json_string_member(text@, "action"@),
                        json_string_member(text@, "task_id"@),
                    ),
                ),
                SocketEvent::Close | SocketEvent::Broken => SocketModel::Stop,
                SocketEvent::Other => SocketModel::Ignore,
            },
    {
        match event {
            SocketEvent::Text(text) => self.answer_subscription(read_subscription(&text)),
            SocketEvent::Close => SocketAction::Stop,
            SocketEvent::Broken => SocketAction::Stop,
            SocketEvent::Other => SocketAction::Ignore,
        }
    }
}

// ---------------------------------------------------------------------------
// Starting a task
// ---------------------------------------------------------------------------

/// The directory for the files of a task.
pub open spec fn upload_dir(id: Seq<char>) -> Seq<char> {
    "tmp/"@ + id
}

fn dir_of(id: &str) -> (r: String)
    ensures
        r@ == upload_dir(id@),
{
    let mut r = "tmp/".to_string();
    r.append(id);
    r
}

/// What is done with a part of an upload.
#[derive(Debug)]
pub enum UploadAction {
    /// Nothing.
    Skip,
    /// The directory of the task is made.
    MakeDir { dir: String },
    /// The directory of the task is made, and a file in it.
    Save { dir: String, path: String, content: Vec<u8> },
}

/// The mathematical content of an [`UploadAction`].
#[verifier::ext_equal]
pub ghost enum UploadModel {
    Skip,
    MakeDir { dir: Seq<char> },
    Save { dir: Seq<char>, path: Seq<char>, content: Seq<u8> },
}

impl View for UploadAction {
    type V = UploadModel;

    open spec fn view(&self) -> UploadModel {
        match self {
            UploadAction::Skip => UploadModel::Skip,
            UploadAction::MakeDir { dir } => UploadModel::MakeDir { dir: dir@ },
            UploadAction::Save { dir, path, content } => UploadModel::Save {
                dir: dir@,
                path: path@,
                content: content@,
            },
        }
    }
}

/// A task that is being uploaded.
#[derive(Debug)]
pub struct Upload {
    pub task_id: String,
    pub name: String,
    pub srt: Option<String>,
    pub audio: Option<String>,
}

/// The mathematical content of an [`Upload`].
#[verifier::ext_equal]
pub ghost struct UploadState {
    pub task_id: Seq<char>,
    pub name: Seq<char>,
    pub srt: Option<Seq<char>>,
    pub audio: Option<Seq<char>>,
}

impl View for Upload {
    type V = UploadState;

    open spec fn view(&self) -> UploadState {
        UploadState {
            task_id: self.task_id@,
            name: self.name@,
            srt: optional_text(self.srt),
            audio: optional_text(self.audio),
        }
    }
}

/// What a part of an upload does: the name of the task is taken if it is one, subtitles and a
/// recording are saved if they are not empty. The content is missing if it could not be read.
pub open spec fn received(
    u: UploadState,
    field: Seq<char>,
    content: Option<Seq<u8>>,
) -> (UploadState, UploadModel) {
    let dir = upload_dir(u.task_id);
    if field == "task_name"@ {
        match content {
            Some(b) => if valid_utf8(b) && !blank(decode_utf8(b)) {
                (UploadState { name: trimmed(decode_utf8(b)), ..u }, UploadModel::Skip)
            } else {
                (u, UploadModel::Skip)
            },
            None => (u, UploadModel::Skip),
        }
    } else if field == "config"@ {
        (u, UploadModel::Skip)
    } else {
        match content {
            Some(b) => if b.len() == 0 {
                (u, UploadModel::Skip)
            } else if field == "srt"@ {
                let path = dir + "/input.srt"@;
                (
                    UploadState { srt: Some(path), ..u },
                    UploadModel::Save { dir, path, content: b },
                )
            } else if field == "audio"@ {
                let path = dir + "/input.audio"@;
                (
                    UploadState { audio: Some(path), ..u },
                    UploadModel::Save { dir, path, content: b },
                )
            } else {
                (u, UploadModel::MakeDir { dir })
            },
            None => (u, UploadModel::Skip),
        }
    }
}

impl Upload {
    /// An upload for the given task, of which nothing has come yet.
    pub fn new(task_id: String) -> (r: Self)
        ensures
            r@ == (UploadState {
                task_id: task_id@,
                name: "未命名任务"@,
                srt: None,
                audio: None,
            }),
    {
        Upload { task_id, name: "未命名任务".to_string(), srt: None, audio: None }
    }

    /// An upload for a task with a random identifier.
    pub fn begin() -> (r: Self)
        ensures
            random_uuid_text(r@.task_id),
            r@ == (UploadState {
                task_id: r@.task_id,
                name: "未命名任务"@,
                srt: None,
                audio: None,
            }),
    {
        Upload::new(random_uuid())
    }

    /// Takes a part of the upload in.
    pub fn receive(&mut self, field: &str, content: Option<Vec<u8>>) -> (action: UploadAction)
        ensures
            (final(self)@, action@) == received(old(self)@, field@, optional_bytes(content)),
    {
        if same_text(field, "task_name") {
            match content {
                Some(b) => match text_of(b) {
                    Some(s) => {
                        if !is_blank(s.as_str()) {
                            self.name = trim(s.as_str()).to_string();
                        }
                    },
                    None => {},
                },
                None => {},
            }
            return UploadAction::Skip;
        }
        if same_text(field, "config") {
            return UploadAction::Skip;
        }
        match content {
            Some(b) => {
                if b.len() == 0 {
                    return UploadAction::Skip;
                }
                let dir = dir_of(self.task_id.as_str());
                if same_text(field, "srt") {
                    let mut path = dir.clone();
                    path.append("/input.srt");
                    self.srt = Some(path.clone());
                    UploadAction::Save { dir, path, content: b }
                } else if same_text(field, "audio") {
                    let mut path = dir.clone();
                    path.append("/input.audio");
                    self.audio = Some(path.clone());
                    UploadAction::Save { dir, path, content: b }
                } else {
                    UploadAction::MakeDir { dir }
                }
            },
            None => UploadAction::Skip,
        }
    }

    /// The task is complete: it has subtitles and a recording.
    pub open spec fn spec_complete(&self) -> bool {
        self.srt is Some && self.audio is Some
    }

    /// Tells whether the task is complete, and can be run.
    pub fn complete(&self) -> (r: bool)
        ensures
            r == self.spec_complete(),
    {
        self.srt.is_some() && self.audio.is_some()
    }
}

impl AppState {
    /// Takes an uploaded task in, as one that is running.
    pub fn start_task(&mut self, upload: &Upload, created_at: i64)
        ensures
            final(self)@ == old(self)@.insert(
                upload@.task_id,
                (RuntimeModel {
                    id: upload@.task_id,
                    srt: upload@.srt,
                    audio: upload@.audio,
                    name: upload@.name,
                    status: "running"@,
                    created_at: created_at as int,
                }),
            ),
    {
        let task = TaskRuntime {
            id: upload.task_id.clone(),
            files: (upload.srt.clone(), upload.audio.clone()),
            name: upload.name.clone(),
            status: "running".to_string(),
            created_at,
        };
        self.insert(task);
    }
}

// ---------------------------------------------------------------------------
// Running a task
// ---------------------------------------------------------------------------

/// The line of the log with which a task starts. The paths are given as they are shown.
pub open spec fn start_text(srt: Seq<char>, audio: Seq<char>) -> Seq<char> {
    "任务开始处理 - SRT: "@ + srt + ", 音频: "@ + audio
}

/// What is told when a task has ended.
pub open spec fn end_messages(id: Seq<char>, outcome: Result<(), Seq<char>>) -> Seq<MessageModel> {
    match outcome {
        Ok(_) => seq![
            log_line(id, "✓ 任务完成！"@),
            status_line(id, "completed"@),
            log_line(id, "./output"@),
        ],
        Err(msg) => seq![log_line(id, "✗ 任务失败: "@ + msg), status_line(id, "error"@)],
    }
}

/// The outcome of a task.
pub open spec fn outcome_of(outcome: Result<(), String>) -> Result<(), Seq<char>> {
    match outcome {
        Ok(_) => Ok(()),
        Err(msg) => Err(msg@),
    }
}

impl AppState {
    /// A task is run, if it is known: it is running, and what is to be told is given. The paths are
    /// given as they are shown.
    pub fn execute_task(&mut self, id: &str, srt: &str, audio: &str) -> (r: Option<WsMessage>)
        ensures
            final(self)@ == with_status(old(self)@, id@, "running"@),
            r is Some <==> old(self)@.contains_key(id@),
            r matches Some(m) ==> m@ == log_line(id@, start_text(srt@, audio@)),
    {
        match self.get(id) {
            None => {
                return None;
            },
            Some(_) => {},
        }
        let mut line = "任务开始处理 - SRT: ".to_string();
        line.append(srt);
        line.append(", 音频: ");
        line.append(audio);
        self.set_status(id, "running");
        Some(log_message(id, line.as_str()))
    }

    /// A task has ended: its status is set, and what is to be told is given.
    pub fn end_task(&mut self, id: &str, outcome: Result<(), String>) -> (r: Vec<WsMessage>)
        ensures
            final(self)@ == with_status(
                old(self)@,
                id@,
                if outcome is Ok {
                    "completed"@
                } else {
                    "error"@
                },
            ),
            message_models(r@) == end_messages(id@, outcome_of(outcome)),
    {
        let mut r: Vec<WsMessage> = Vec::new();
        match &outcome {
            Ok(_) => {
                r.push(log_message(id, "✓ 任务完成！"));
                r.push(message(id, "status", "completed"));
                r.push(log_message(id, "./output"));
                self.set_status(id, "completed");
            },
            Err(msg) => {
                let mut line = "✗ 任务失败: ".to_string();
                line.append(msg.as_str());
                r.push(log_message(id, line.as_str()));
                r.push(message(id, "status", "error"));
                self.set_status(id, "error");
            },
        }
        assert(message_models(r@) =~= end_messages(id@, outcome_of(outcome)));
        r
    }
}

/// How tasks that are started from the page go about their work.
pub fn web_settings() -> (r: RunSettings)
    ensures
        r.api_url@ == "https://models.inference.ai.azure.com"@,
        r.output@ == "./output"@,
        r.max_concurrent == 5,
        r.split_concurrent == 3,
        r.batch_size == 20,
        r.rest_duration == 1000,
        r.retry_count == 3,
{
    RunSettings {
        api_url: "https://models.inference.ai.azure.com".to_string(),
        output: "./output".to_string(),
        max_concurrent: 5,
        split_concurrent: 3,
        batch_size: 20,
        rest_duration: 1000,
        retry_count: 3,
    }
}

// ---------------------------------------------------------------------------
// Laws
// ---------------------------------------------------------------------------

/// A page that asks for a task is told the status that was set last.
pub proof fn law_status_is_told(
    tasks: Map<Seq<char>, RuntimeModel>,
    id: Seq<char>,
    status: Seq<char>,
)
    requires
        tasks.contains_key(id),
    ensures
        answer(with_status(tasks, id, status), Some(id)) == SocketModel::Subscribe(
            status_line(id, status),
        ),
{
}

/// The message is of a type that pages know, and is for the task.
pub open spec fn fits(m: MessageModel, id: Seq<char>) -> bool {
    m.task_id == id && (m.msg_type == "log"@ || m.msg_type == "status"@ || m.msg_type == "error"@)
}

/// All that is told of a task is for that task, and of a type that pages know.
pub proof fn law_messages_fit(
    id: Seq<char>,
    srt: Seq<char>,
    audio: Seq<char>,
    line: Seq<char>,
    outcome: Result<(), Seq<char>>,
    i: int,
)
    ensures
        fits(log_line(id, start_text(srt, audio)), id),
        fits(log_line(id, line), id),
        0 <= i < end_messages(id, outcome).len() ==> fits(end_messages(id, outcome)[i], id),
{
}

/// A task that was started is known at once, and one that was deleted is not any more; other tasks
/// are not concerned.
pub proof fn law_tasks_come_and_go(
    tasks: Map<Seq<char>, RuntimeModel>,
    id: Seq<char>,
    task: RuntimeModel,
    other: Option<Seq<char>>,
)
    ensures
        answer(tasks.insert(id, task), Some(id)) == SocketModel::Subscribe(
            status_line(id, task.status),
        ),
        answer(tasks.remove(id), Some(id)) == SocketModel::Ignore,
        other != Some(id) ==> answer(tasks.insert(id, task), other) == answer(tasks, other),
        other != Some(id) ==> answer(tasks.remove(id), other) == answer(tasks, other),
{
}

/// A status changes nothing else: not what else is known of the task, nor other tasks, and no task
/// comes or goes.
pub proof fn law_status_changes_nothing_else(
    tasks: Map<Seq<char>, RuntimeModel>,
    id: Seq<char>,
    status: Seq<char>,
    other: Seq<char>,
)
    ensures
        with_status(tasks, id, status).dom() == tasks.dom(),
        other != id && tasks.contains_key(other) ==> with_status(tasks, id, status)[other]
            == tasks[other],
        tasks.contains_key(id) ==> with_status(tasks, id, status)[id].name == tasks[id].name
            && with_status(tasks, id, status)[id].created_at == tasks[id].created_at,
{
    assert(with_status(tasks, id, status).dom() =~= tasks.dom());
}

/// Parts of an upload never change which task it is, and what one part saves is not lost by a later
/// one.
pub proof fn law_uploads_are_kept(u: UploadState, field: Seq<char>, content: Option<Seq<u8>>)
    ensures
        received(u, field, content).0.task_id == u.task_id,
        u.srt is Some ==> received(u, field, content).0.srt is Some,
        u.audio is Some ==> received(u, field, content).0.audio is Some,
        !blank(u.name) ==> !blank(received(u, field, content).0.name),
{
    match content {
        Some(b) => {
            if valid_utf8(b) && !blank(decode_utf8(b)) {
                lemma_trimmed_is_not_blank(decode_utf8(b));
            }
        },
        None => {},
    }
}

proof fn lemma_trimmed_is_not_blank(s: Seq<char>)
    requires
        !blank(s),
    ensures
        !blank(trimmed(s)),
    decreases s.len(),
{
    let i = choose|i: int| 0 <= i < s.len() && !white_space(#[trigger] s[i]);
    if white_space(s[0]) {
        assert(s.drop_first()[i - 1] == s[i]);
        lemma_trimmed_is_not_blank(s.drop_first());
    } else if white_space(s.last()) {
        assert(s.drop_last()[i] == s[i]);
        lemma_trimmed_is_not_blank(s.drop_last());
    } else {
        assert(!white_space(s[0]));
    }
}

} // verus!
