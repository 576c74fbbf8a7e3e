//! The key-value store behind the Redis-style server: the commands it
//! understands, what each does to the store, and the reply it sends.
use vstd::hash_map::StringHashMap;
use vstd::prelude::*;

verus! {

/// `mini_redis::Frame`, a frame of the Redis protocol. Verus sees nothing
/// inside it; it is only built to be handed to the parser.
#[verifier::external_type_specification]
#[verifier::external_body]
pub struct ExFrame(mini_redis::Frame);

/// A frame of the Redis protocol as plain values, variant for variant as
/// `mini_redis::Frame` has them.
#[derive(Debug)]
pub enum PlainFrame {
    /// A simple string.
    Simple(String),
    /// An error message.
    Error(String),
    /// An integer.
    Integer(u64),
    /// A bulk string of bytes.
    Bulk(Vec<u8>),
    /// The null frame.
    Null,
    /// An array of frames.
    Array(Vec<PlainFrame>),
}

/// A command received from a client.
#[derive(Debug)]
pub enum Command {
    /// Read the value stored under `key`.
    GetValue { key: String },
    /// Store `value` under `key`, replacing any earlier value.
    SetValue { key: String, value: Vec<u8> },
    /// Publish a message to a channel (not served by this store).
    Publish,
    /// Subscribe to channels (not served by this store).
    Subscribe,
    /// Unsubscribe from channels (not served by this store).
    Unsubscribe,
    /// A command name that the protocol does not know.
    Unknown,
}

/// The reply sent back for a command.
#[derive(Debug)]
pub enum Reply {
    /// A simple status string.
    Simple(String),
    /// A stored value.
    Bulk(Vec<u8>),
    /// No value is stored under the key asked for.
    Null,
}

/// Why a frame was not answered.
#[derive(Debug)]
pub enum ProcessError {
    /// The frame is not a well-formed command; the parser's message.
    Malformed(String),
    /// The command is one that this store does not serve.
    Unimplemented(Command),
}

/// A command seen through its views.
pub enum Request {
    /// Read the value under a key.
    GetValue(Seq<char>),
    /// Store a value under a key.
    SetValue(Seq<char>, Seq<u8>),
    /// Publish to a channel.
    Publish,
    /// Subscribe to channels.
    Subscribe,
    /// Unsubscribe from channels.
    Unsubscribe,
    /// A command name that the protocol does not know.
    Unknown,
}

/// The outcome of a command seen through its views.
pub enum Response {
    /// A simple status string.
    Simple(Seq<char>),
    /// A stored value.
    Bulk(Seq<u8>),
    /// No value under the key asked for.
    Null,
    /// The command, seen through its view, was refused.
    Unimplemented(Request),
    /// The frame did not parse; the parser's message.
    Malformed(Seq<char>),
}

impl View for Command {
    type V = Request;

    open spec fn view(&self) -> Request {
        match self {
            Command::GetValue { key } => Request::GetValue(key@),
            Command::SetValue { key, value } => Request::SetValue(key@, value@),
            Command::Publish => Request::Publish,
            Command::Subscribe => Request::Subscribe,
            Command::Unsubscribe => Request::Unsubscribe,
            Command::Unknown => Request::Unknown,
        }
    }
}

/// The outcome of executing a command, seen through its views. A parse
/// failure never reaches the store; it is told apart by the error itself.
pub open spec fn response_of(r: Result<Reply, ProcessError>) -> Response {
    match r {
        Ok(Reply::Simple(s)) => Response::Simple(s@),
        Ok(Reply::Bulk(v)) => Response::Bulk(v@),
        Ok(Reply::Null) => Response::Null,
        Err(ProcessError::Unimplemented(c)) => Response::Unimplemented(c@),
        Err(ProcessError::Malformed(m)) => Response::Malformed(m@),
    }
}

/// What parsing `frame` with `mini_redis::Command::from_frame` gives: the
/// command seen through its view, or the parser's error message.
pub uninterp spec fn command_of(frame: PlainFrame) -> Result<Request, Seq<char>>;

/// The outcome of a parse, seen through views.
pub open spec fn parse_outcome(r: Result<Command, String>) -> Result<Request, Seq<char>> {
    match r {
        Ok(c) => Ok(c@),
        Err(m) => Err(m@),
    }
}

/// The contents of a store.
pub type Contents = Map<Seq<char>, Seq<u8>>;

/// What a command does: the store's contents afterwards and the response.
/// `GET` leaves the store as it is and answers with the stored value, or
/// `Null` when there is none; `SET` stores the value and answers `OK`;
/// any other command is refused, named in the response, and changes nothing.
pub open spec fn step(db: Contents, req: Request) -> (Contents, Response) {
    match req {
        Request::GetValue(key) => (
            db,
            if db.contains_key(key) {
                Response::Bulk(db[key])
            } else {
                Response::Null
            },
        ),
        Request::SetValue(key, value) => (db.insert(key, value), Response::Simple("OK"@)),
        other => (db, Response::Unimplemented(other)),
    }
}

/// A write answers `OK` whatever the store held before, stores the value
/// under its key and leaves every other key as it was.
pub proof fn lemma_set_answers_ok(db: Contents, key: Seq<char>, value: Seq<u8>)
    ensures
        step(db, Request::SetValue(key, value)).1 == Response::Simple("OK"@),
        step(db, Request::SetValue(key, value)).0.contains_key(key),
        step(db, Request::SetValue(key, value)).0[key] == value,
        forall|k: Seq<char>|
            k != key ==> (#[trigger] step(db, Request::SetValue(key, value)).0.contains_key(k)
                == db.contains_key(k)),
        forall|k: Seq<char>|
            k != key && db.contains_key(k) ==> #[trigger] step(db, Request::SetValue(key, value)).0[k]
                == db[k],
{
}

/// A read leaves the store as it was and answers the value stored under
/// its key, or `Null` when none is.
pub proof fn lemma_get_answers_stored_value(db: Contents, key: Seq<char>)
    ensures
        step(db, Request::GetValue(key)).0 == db,
        db.contains_key(key) ==> step(db, Request::GetValue(key)).1 == Response::Bulk(db[key]),
        !db.contains_key(key) ==> step(db, Request::GetValue(key)).1 == Response::Null,
{
}

/// A read gives back what the last write to the same key wrote.
pub proof fn lemma_get_after_set(db: Contents, key: Seq<char>, value: Seq<u8>)
    ensures
        step(step(db, Request::SetValue(key, value)).0, Request::GetValue(key)).1
            == Response::Bulk(value),
{
    assert(db.insert(key, value).contains_key(key));
}

/// A write to one key leaves what a read of any other key gives unchanged.
pub proof fn lemma_set_keeps_other_keys(
    db: Contents,
    key: Seq<char>,
    value: Seq<u8>,
    other: Seq<char>,
)
    requires
        other != key,
    ensures
        step(step(db, Request::SetValue(key, value)).0, Request::GetValue(other)).1
            == step(db, Request::GetValue(other)).1,
{
    let after = db.insert(key, value);
    assert(after.contains_key(other) == db.contains_key(other));
    if db.contains_key(other) {
        assert(after[other] == db[other]);
    }
}

/// Of two writes to the same key, the later one wins.
pub proof fn lemma_last_set_wins(db: Contents, key: Seq<char>, first: Seq<u8>, second: Seq<u8>)
    ensures
        step(step(db, Request::SetValue(key, first)).0, Request::SetValue(key, second)).0
            == step(db, Request::SetValue(key, second)).0,
{
    assert(db.insert(key, first).insert(key, second) =~= db.insert(key, second));
}

/// Reads and refused commands leave the store as it was.
pub proof fn lemma_only_set_changes(db: Contents, req: Request)
    requires
        !(req is SetValue),
    ensures
        step(db, req).0 == db,
{
}

/// The store's contents after executing `reqs` one after another.
pub open spec fn run(db: Contents, reqs: Seq<Request>) -> Contents
    decreases reqs.len(),
{
    if reqs.len() == 0 {
        db
    } else {
        step(run(db, reqs.drop_last()), reqs.last()).0
    }
}

/// `req` stores a value under `key`.
pub open spec fn writes_key(req: Request, key: Seq<char>) -> bool {
    req matches Request::SetValue(k, _) && k == key
}

/// A run of commands none of which stores under `key` leaves the value
/// under `key` as it was.
proof fn lemma_run_keeps_key(db: Contents, reqs: Seq<Request>, key: Seq<char>)
    requires
        db.contains_key(key),
        forall|i: int| 0 <= i < reqs.len() ==> !writes_key(#[trigger] reqs[i], key),
    ensures
        run(db, reqs).contains_key(key),
        run(db, reqs)[key] == db[key],
    decreases reqs.len(),
{
    if reqs.len() > 0 {
        let init = reqs.drop_last();
        assert forall|i: int| 0 <= i < init.len() implies !writes_key(#[trigger] init[i], key) by {
            assert(init[i] == reqs[i]);
        }
        lemma_run_keeps_key(db, init, key);
        assert(!writes_key(reqs[reqs.len() - 1], key));
    }
}

/// A value stored under a key is read back unchanged after any run of
/// commands that stores nothing else under that key: the latest write of a
/// key is the one every later read sees.
pub proof fn lemma_read_back_after_run(
    db: Contents,
    key: Seq<char>,
    value: Seq<u8>,
    reqs: Seq<Request>,
)
    requires
        forall|i: int| 0 <= i < reqs.len() ==> !writes_key(#[trigger] reqs[i], key),
    ensures
        step(run(step(db, Request::SetValue(key, value)).0, reqs), Request::GetValue(key)).1
            == Response::Bulk(value),
{
    let after = db.insert(key, value);
    assert(after.contains_key(key));
    lemma_run_keeps_key(after, reqs, key);
}

/// A store of byte values under string keys.
pub struct Store {
    entries: StringHashMap<Vec<u8>>,
}

impl View for Store {
    type V = Contents;

    closed spec fn view(&self) -> Contents {
        self.entries@.map_values(|v: Vec<u8>| v@)
    }
}

/// Rebuilds a `mini_redis::Frame` from its plain form, variant for variant
/// and element for element.
#[verifier::external_body]
fn into_mini_frame(frame: PlainFrame) -> mini_redis::Frame {
    match frame {
        PlainFrame::Simple(s) => mini_redis::Frame::Simple(s),
        PlainFrame::Error(s) => mini_redis::Frame::Error(s),
        PlainFrame::Integer(n) => mini_redis::Frame::Integer(n),
        PlainFrame::Bulk(v) => mini_redis::Frame::Bulk(bytes::Bytes::from(v)),
        PlainFrame::Null => mini_redis::Frame::Null,
        PlainFrame::Array(items) => mini_redis::Frame::Array(
            items.into_iter().map(into_mini_frame).collect(),
        ),
    }
}

/// `mini_redis::Command::from_frame` on the frame that `frame` stands for.
/// Its outcome depends on the frame alone and is named `command_of`: the
/// command, variant for variant (key and value of `GET` and `SET`), or the
/// parser's error message.
#[verifier::external_body]
fn parse_command(frame: PlainFrame) -> (r: Result<Command, String>)
    ensures
        parse_outcome(r) == command_of(frame),
{
    match mini_redis::Command::from_frame(into_mini_frame(frame)) {
        Ok(mini_redis::Command::Get(c)) => Ok(Command::GetValue { key: c.key().to_string() }),
        Ok(mini_redis::Command::Set(c)) => Ok(
            Command::SetValue { key: c.key().to_string(), value: c.value().to_vec() },
        ),
        Ok(mini_redis::Command::Publish(_)) => Ok(Command::Publish),
        Ok(mini_redis::Command::Subscribe(_)) => Ok(Command::Subscribe),
        Ok(mini_redis::Command::Unsubscribe(_)) => Ok(Command::Unsubscribe),
        Ok(mini_redis::Command::Unknown(_)) => Ok(Command::Unknown),
        Err(e) => Err(e.to_string()),
    }
}

impl Store {
    /// An empty store.
    pub fn new() -> (r: Store)
        ensures
            r@ == Contents::empty(),
    {
        let r = Store { entries: StringHashMap::new() };
        assert(r@ =~= Contents::empty());
        r
    }

    /// Executes `cmd` against the store and gives the reply to send back.
    pub fn execute(&mut self, cmd: Command) -> (r: Result<Reply, ProcessError>)
        ensures
            (final(self)@, response_of(r)) == step(old(self)@, cmd@),
            r matches Err(e) ==> e is Unimplemented,
            r matches Err(ProcessError::Unimplemented(c)) ==> c == cmd,
            cmd matches Command::SetValue { key, value } ==> (r matches Ok(Reply::Simple(s))
                && s@ == "OK"@) && final(self)@ == old(self)@.insert(key@, value@),
            cmd matches Command::GetValue { key } ==> final(self)@ == old(self)@ && (if old(
                self,
            )@.contains_key(key@) {
                r matches Ok(Reply::Bulk(v)) && v@ == old(self)@[key@]
            } else {
                r matches Ok(Reply::Null)
            }),
    {
        match cmd {
            Command::GetValue { key } => match self.entries.get(key.as_str()) {
                Some(v) => Ok(Reply::Bulk(v.clone())),
                None => Ok(Reply::Null),
            },
            Command::SetValue { key, value } => {
                let ghost k = key@;
                let ghost v = value@;
                self.entries.insert(key, value);
                assert(self@ =~= old(self)@.insert(k, v));
                let ok = "OK".to_owned();
                Ok(Reply::Simple(ok))
            },
            other => Err(ProcessError::Unimplemented(other)),
        }
    }

    /// Parses `frame` into a command and executes it. A frame that does not
    /// parse leaves the store as it was and gives `Malformed` with the
    /// parser's message; otherwise the store and the reply are those of
    /// executing the command parsed.
    pub fn process_frame(&mut self, frame: PlainFrame) -> (r: Result<Reply, ProcessError>)
        ensures
            command_of(frame) is Err <==> r matches Err(ProcessError::Malformed(_)),
            command_of(frame) matches Err(m) ==> final(self)@ == old(self)@ && (r matches Err(
                ProcessError::Malformed(msg),
            ) && msg@ == m),
            command_of(frame) matches Ok(req) ==> (final(self)@, response_of(r)) == step(
                old(self)@,
                req,
            ),
            r matches Err(ProcessError::Unimplemented(c)) ==> command_of(frame) == Ok::<Request, Seq<char>>(c@),
    {
        match parse_command(frame) {
            Ok(cmd) => self.execute(cmd),
            Err(msg) => Err(ProcessError::Malformed(msg)),
        }
    }
}

/// `num_shards` empty stores, one per shard.
pub fn new_shard_db(num_shards: usize) -> (r: Vec<Store>)
    ensures
        r.len() == num_shards,
        forall|i: int| 0 <= i < num_shards ==> #[trigger] r[i]@ == Contents::empty(),
{
    let mut db: Vec<Store> = Vec::with_capacity(num_shards);
    let mut i: usize = 0;
    while i < num_shards
        invariant
            i <= num_shards,
            db.len() == i,
            forall|j: int| 0 <= j < i ==> #[trigger] db[j]@ == Contents::empty(),
        decreases num_shards - i,
    {
        db.push(Store::new());
        i = i + 1;
    }
    db
}

} // verus!
