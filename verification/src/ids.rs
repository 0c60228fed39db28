//! Identifiers of cloud objects: server-assigned ids, client-generated ids,
//! the ids of folders and generic string objects, and their SQLite hashes.

use vstd::prelude::*;

use crate::cloud_object::{sqlite_prefix_text, ObjectIdType};
use crate::text::{chars_of, concat3, owned, starts_with_str, string_from_chars, string_from_range};
use crate::uuid_text::{
    lemma_parse_hyphenated_roundtrip, new_random_uuid, parse_uuid, uuid_hyphenated, uuid_parse_text,
    uuid_to_hyphenated,
};

verus! {

broadcast use {vstd::string::group_string_axioms, vstd::array::group_array_axioms};

/// Number of characters of every server id.
pub const SERVER_ID_LENGTH: usize = 22;

/// An identifier assigned by the server: exactly 22 characters.
#[derive(Clone, Copy, Eq, Hash, Debug)]
pub struct ServerId {
    chars: [char; 22],
}

/// A text that is not 22 characters long, offered as a server id.
#[derive(Clone, Copy, Debug, PartialEq, Eq)]
pub struct InvalidServerId;

impl View for ServerId {
    type V = Seq<char>;

    closed spec fn view(&self) -> Seq<char> {
        self.chars@
    }
}

/// The character of a decimal digit.
pub open spec fn decimal_digit(d: nat) -> char {
    (48 + d) as char
}

/// The last `w` decimal digits of `n`, most significant first.
pub open spec fn decimal_padded(n: nat, w: nat) -> Seq<char>
    decreases w,
{
    if w == 0 {
        Seq::empty()
    } else {
        decimal_padded(n / 10, (w - 1) as nat).push(decimal_digit(n % 10))
    }
}

/// Ten to the power `w`.
pub open spec fn pow10(w: nat) -> nat
    decreases w,
{
    if w == 0 {
        1
    } else {
        10 * pow10((w - 1) as nat)
    }
}

/// Exclusive bound of the numbers that test server ids are made from.
pub const TEST_UID_BOUND: i64 = 100_000_000_000_000;

/// The text of the test server id made from `v`: "test_uid" and 14 digits.
pub open spec fn test_uid_text(v: int) -> Seq<char> {
    "test_uid"@ + decimal_padded(v as nat, 14)
}

/// A server id's SQLite hash: the kind's prefix, a hyphen, the id.
pub open spec fn sqlite_hash_text(t: ObjectIdType, uid: Seq<char>) -> Seq<char> {
    sqlite_prefix_text(t) + "-"@ + uid
}

/// A server id is determined by its text.
pub proof fn lemma_view_determines_server_id(a: ServerId, b: ServerId)
    requires
        a@ == b@,
    ensures
        a == b,
{
    assert(a.chars =~= b.chars);
}

fn decimal_digit_char(d: u64) -> (c: char)
    requires
        d < 10,
    ensures
        c == decimal_digit(d as nat),
{
    match d {
        0 => '0',
        1 => '1',
        2 => '2',
        3 => '3',
        4 => '4',
        5 => '5',
        6 => '6',
        7 => '7',
        8 => '8',
        _ => '9',
    }
}

fn decimal_padded_chars(n: u64, w: usize) -> (r: Vec<char>)
    ensures
        r@ == decimal_padded(n as nat, w as nat),
    decreases w,
{
    if w == 0 {
        Vec::new()
    } else {
        let mut r = decimal_padded_chars(n / 10, w - 1);
        r.push(decimal_digit_char(n % 10));
        r
    }
}

impl<'a> TryFrom<&'a str> for ServerId {
    type Error = InvalidServerId;

    /// The server id spelled by `s`; refused unless `s` has 22 characters.
    fn try_from(s: &'a str) -> (r: Result<ServerId, InvalidServerId>)
        ensures
            r is Ok <==> s@.len() == 22,
            r matches Ok(id) ==> id@ == s@,
    {
        let cs = chars_of(s);
        if cs.len() != SERVER_ID_LENGTH {
            return Err(InvalidServerId);
        }
        let mut a: [char; 22] = ['\0'; 22];
        let mut i: usize = 0;
        while i < SERVER_ID_LENGTH
            invariant
                cs@ == s@,
                cs@.len() == 22,
                i <= 22,
                a@.len() == 22,
                forall|j: int| 0 <= j < i ==> a@[j] == cs@[j],
            decreases 22 - i,
        {
            a[i] = cs[i];
            i = i + 1;
        }
        assert(a@ =~= cs@);
        let id = ServerId { chars: a };
        proof {
            assert(id@ == s@);
            lemma_view_determines_server_id(id, server_id_with_text(s@));
        }
        Ok(id)
    }
}

/// The server id whose text is `t`.
pub open spec fn server_id_with_text(t: Seq<char>) -> ServerId {
    choose|id: ServerId| id@ == t
}

impl<'a> vstd::std_specs::convert::TryFromSpecImpl<&'a str> for ServerId {
    open spec fn obeys_try_from_spec() -> bool {
        true
    }

    open spec fn try_from_spec(s: &'a str) -> Result<ServerId, InvalidServerId> {
        if s@.len() == 22 {
            Ok(server_id_with_text(s@))
        } else {
            Err(InvalidServerId)
        }
    }
}

impl ServerId {
    /// The server id spelled by `s`, which must have 22 characters.
    pub fn from_string_lossy(s: &str) -> (id: ServerId)
        requires
            s@.len() == 22,
        ensures
            id@ == s@,
    {
        match ServerId::try_from(s) {
            Ok(id) => id,
            Err(_) => {
                let none: Option<ServerId> = None;
                none.expect("ServerId must be exactly 22 characters")
            },
        }
    }

    /// The test server id made from `v`: "test_uid" and `v` in 14 decimal digits.
    pub fn from(v: i64) -> (id: ServerId)
        requires
            0 <= v < TEST_UID_BOUND,
        ensures
            id@ == test_uid_text(v as int),
    {
        let digits = decimal_padded_chars(v as u64, 14);
        let digit_text = string_from_chars(digits.as_slice());
        let mut text = owned("test_uid");
        text.append(digit_text.as_str());
        proof {
            reveal_strlit("test_uid");
            assert(decimal_padded(v as nat, 14).len() == 14) by {
                lemma_decimal_padded_len(v as nat, 14);
            }
        }
        ServerId::from_string_lossy(text.as_str())
    }

    /// The 22 characters of this id.
    pub fn to_string(&self) -> (s: String)
        ensures
            s@ == self@,
    {
        string_from_chars(&self.chars)
    }

    /// The debugging text of this id: "ServerId(", the id, ")".
    pub fn to_debug_string(&self) -> (s: String)
        ensures
            s@ == "ServerId("@ + self@ + ")"@,
    {
        let id = self.to_string();
        concat3("ServerId(", id.as_str(), ")")
    }

    /// The SQLite hash of this id as an object of kind `t`: prefix, hyphen, id.
    pub fn sqlite_type_and_uid_hash(&self, t: ObjectIdType) -> (s: String)
        ensures
            s@ == sqlite_hash_text(t, self@),
    {
        let uid = self.to_string();
        concat3(t.sqlite_prefix(), "-", uid.as_str())
    }
}

impl PartialEq for ServerId {
    fn eq(&self, other: &ServerId) -> (r: bool) {
        let mut i: usize = 0;
        while i < SERVER_ID_LENGTH
            invariant
                self.chars@.len() == 22,
                other.chars@.len() == 22,
                i <= 22,
                forall|j: int| 0 <= j < i ==> self.chars@[j] == other.chars@[j],
            decreases 22 - i,
        {
            if self.chars[i] != other.chars[i] {
                return false;
            }
            i = i + 1;
        }
        assert(self.chars@ =~= other.chars@);
        true
    }
}

impl vstd::std_specs::cmp::PartialEqSpecImpl for ServerId {
    open spec fn obeys_eq_spec() -> bool {
        true
    }

    open spec fn eq_spec(&self, other: &ServerId) -> bool {
        self@ == other@
    }
}

impl From<ServerId> for String {
    fn from(id: ServerId) -> (s: String)
        ensures
            s@ == id@,
    {
        id.to_string()
    }
}

impl vstd::std_specs::convert::FromSpecImpl<ServerId> for String {
    open spec fn obeys_from_spec() -> bool {
        false
    }

    open spec fn from_spec(id: ServerId) -> String {
        arbitrary()
    }
}


/// An identifier that has a textual hash under which it is stored locally.
pub trait HashableId: Sized + View {
    /// The hash of an id, given by its view.
    spec fn hash_text(v: Self::V) -> Seq<char>;

    /// The view of the id that a hash text stands for, if any.
    spec fn view_from_hash(text: Seq<char>) -> Option<Self::V>;

    /// The hash of this id.
    fn to_hash(&self) -> (s: String)
        ensures
            s@ == Self::hash_text(self@),
    ;

    /// The id a hash stands for; `None` for a text that is no such hash.
    fn from_hash(hash: &str) -> (r: Option<Self>)
        ensures
            r is Some <==> Self::view_from_hash(hash@) is Some,
            r matches Some(id) ==> Self::view_from_hash(hash@) == Some(id@),
            forall|id: Self| hash@ == Self::hash_text(id@) ==> (r matches Some(x) && x@ == id@),
    ;
}

/// An identifier generated on the client before the server assigns one: a UUID.
#[derive(Clone, Copy, PartialEq, Eq, Structural, Hash, Debug)]
pub struct ClientId {
    uuid: u128,
}

impl View for ClientId {
    type V = u128;

    closed spec fn view(&self) -> u128 {
        self.uuid
    }
}

/// The text of a client id: "Client-" and the hyphenated UUID.
pub open spec fn client_id_text(v: u128) -> Seq<char> {
    "Client-"@ + uuid_hyphenated(v)
}

/// The UUID that a client id text holds: "Client-" and a UUID text in any
/// form the UUID parser accepts.
pub open spec fn client_id_from_text(s: Seq<char>) -> Option<u128> {
    if 7 <= s.len() && s.subrange(0, 7) == "Client-"@ {
        uuid_parse_text(s.subrange(7, s.len() as int))
    } else {
        None
    }
}

impl ClientId {
    /// A fresh client id around a random (version 4) UUID.
    pub fn new() -> (id: ClientId)
        ensures
            (id@ >> 76u128) & 0xfu128 == 4u128,
            (id@ >> 62u128) & 0x3u128 == 2u128,
    {
        ClientId { uuid: new_random_uuid() }
    }

    /// The client id of a given UUID.
    pub fn from_uuid(uuid: u128) -> (id: ClientId)
        ensures
            id@ == uuid,
    {
        ClientId { uuid }
    }

    /// The bits of this id's UUID.
    pub fn uuid(&self) -> (v: u128)
        ensures
            v == self@,
    {
        self.uuid
    }

    /// The text of this id: "Client-" and the hyphenated UUID.
    pub fn to_string(&self) -> (s: String)
        ensures
            s@ == client_id_text(self@),
    {
        let u = uuid_to_hyphenated(self.uuid);
        let mut s = owned("Client-");
        s.append(u.as_str());
        s
    }

    /// The SQLite hash of this id, which is its text.
    pub fn sqlite_hash(&self) -> (s: String)
        ensures
            s@ == client_id_text(self@),
    {
        self.to_string()
    }
}

impl HashableId for ClientId {
    open spec fn hash_text(v: u128) -> Seq<char> {
        client_id_text(v)
    }

    open spec fn view_from_hash(text: Seq<char>) -> Option<u128> {
        client_id_from_text(text)
    }

    fn to_hash(&self) -> (s: String) {
        self.to_string()
    }

    fn from_hash(hash: &str) -> (r: Option<ClientId>) {
        proof { reveal_strlit("Client-"); }
        let cs = chars_of(hash);
        if !starts_with_str(cs.as_slice(), "Client-") {
            assert forall|c: ClientId| hash@ != client_id_text(c@) by {
                let v = c@;
                if hash@ == client_id_text(v) {
                    assert(hash@.subrange(0, 7) =~= "Client-"@);
                }
            }
            return None;
        }
        let n = hash.unicode_len();
        let rest = hash.substring_char(7, n);
        assert forall|c: ClientId| hash@ == client_id_text(c@) implies uuid_parse_text(rest@)
            == Some(c@) by {
            assert(hash@.subrange(7, hash@.len() as int) =~= uuid_hyphenated(c@));
            lemma_parse_hyphenated_roundtrip(c@);
        }
        match parse_uuid(rest) {
            Some(v) => Some(ClientId { uuid: v }),
            None => None,
        }
    }
}

/// The id of a folder, which the server assigns.
#[derive(Clone, Copy, PartialEq, Eq, Hash, Debug)]
pub struct FolderId {
    id: ServerId,
}

/// The id of a generic string object, which the server assigns.
#[derive(Clone, Copy, PartialEq, Eq, Hash, Debug)]
pub struct GenericStringObjectId {
    id: ServerId,
}

impl View for FolderId {
    type V = Seq<char>;

    closed spec fn view(&self) -> Seq<char> {
        self.id@
    }
}

impl View for GenericStringObjectId {
    type V = Seq<char>;

    closed spec fn view(&self) -> Seq<char> {
        self.id@
    }
}

/// The server id that a hash with the given kind's prefix holds, if any.
pub open spec fn server_id_from_hash(t: ObjectIdType, s: Seq<char>) -> Option<Seq<char>> {
    let p = sqlite_prefix_text(t) + "-"@;
    if p.len() <= s.len() && s.subrange(0, p.len() as int) == p && s.len() - p.len() == 22 {
        Some(s.subrange(p.len() as int, s.len() as int))
    } else {
        None
    }
}

/// The server id in a hash that begins with `prefix`: the rest of the hash,
/// which must be 22 characters long.
fn server_id_after_prefix(hash: &str, prefix: &str) -> (r: Option<ServerId>)
    ensures
        r is Some <==> (prefix@.len() <= hash@.len() && hash@.subrange(0, prefix@.len() as int)
            == prefix@ && hash@.len() - prefix@.len() == 22),
        r matches Some(id) ==> id@ == hash@.subrange(prefix@.len() as int, hash@.len() as int),
{
    let cs = chars_of(hash);
    if !starts_with_str(cs.as_slice(), prefix) {
        return None;
    }
    let p = prefix.unicode_len();
    let rest = string_from_range(cs.as_slice(), p, cs.len());
    match ServerId::try_from(rest.as_str()) {
        Ok(id) => Some(id),
        Err(_) => None,
    }
}

proof fn lemma_hash_prefix_parts(t: ObjectIdType, v: Seq<char>, s: Seq<char>)
    requires
        s == sqlite_hash_text(t, v),
    ensures
        ({
            let p = sqlite_prefix_text(t) + "-"@;
            &&& p.len() <= s.len()
            &&& s.subrange(0, p.len() as int) == p
            &&& s.subrange(p.len() as int, s.len() as int) == v
        }),
{
    let p = sqlite_prefix_text(t) + "-"@;
    assert(s =~= p + v);
    assert(s.subrange(0, p.len() as int) =~= p);
    assert(s.subrange(p.len() as int, s.len() as int) =~= v);
}

impl FolderId {
    /// The folder id of a server id.
    pub fn new(id: ServerId) -> (f: FolderId)
        ensures
            f@ == id@,
    {
        FolderId { id }
    }

    /// The test folder id made from `v` (see `ServerId::from`).
    pub fn from(v: i64) -> (f: FolderId)
        requires
            0 <= v < TEST_UID_BOUND,
        ensures
            f@ == test_uid_text(v as int),
    {
        FolderId { id: ServerId::from(v) }
    }

    /// The server id of this folder.
    pub fn server_id(&self) -> (id: ServerId)
        ensures
            id@ == self@,
    {
        self.id
    }
}

impl HashableId for FolderId {
    open spec fn hash_text(v: Seq<char>) -> Seq<char> {
        sqlite_hash_text(ObjectIdType::Folder, v)
    }

    open spec fn view_from_hash(text: Seq<char>) -> Option<Seq<char>> {
        server_id_from_hash(ObjectIdType::Folder, text)
    }

    fn to_hash(&self) -> (s: String) {
        self.id.sqlite_type_and_uid_hash(ObjectIdType::Folder)
    }

    fn from_hash(hash: &str) -> (r: Option<FolderId>) {
        let t = ObjectIdType::Folder;
        let prefix = concat3(t.sqlite_prefix(), "-", "");
        proof {
            reveal_strlit("");
            assert(prefix@ =~= sqlite_prefix_text(t) + "-"@);
        }
        let r = match server_id_after_prefix(hash, prefix.as_str()) {
            Some(id) => Some(FolderId { id }),
            None => None,
        };
        proof {
            assert forall|x: Self| hash@ == Self::hash_text(x@) implies (r matches Some(y) && y@
                == x@) by {
                lemma_hash_prefix_parts(t, x@, hash@);
                lemma_server_id_len(x.id);
            }
        }
        r
    }
}

impl GenericStringObjectId {
    /// The generic string object id of a server id.
    pub fn new(id: ServerId) -> (g: GenericStringObjectId)
        ensures
            g@ == id@,
    {
        GenericStringObjectId { id }
    }

    /// The test generic string object id made from `v` (see `ServerId::from`).
    pub fn from(v: i64) -> (g: GenericStringObjectId)
        requires
            0 <= v < TEST_UID_BOUND,
        ensures
            g@ == test_uid_text(v as int),
    {
        GenericStringObjectId { id: ServerId::from(v) }
    }

    /// The server id of this object.
    pub fn server_id(&self) -> (id: ServerId)
        ensures
            id@ == self@,
    {
        self.id
    }

    /// The uid of this object: its server id's text.
    pub fn uid(&self) -> (s: String)
        ensures
            s@ == self@,
    {
        self.id.to_string()
    }
}

impl HashableId for GenericStringObjectId {
    open spec fn hash_text(v: Seq<char>) -> Seq<char> {
        sqlite_hash_text(ObjectIdType::GenericStringObject, v)
    }

    open spec fn view_from_hash(text: Seq<char>) -> Option<Seq<char>> {
        server_id_from_hash(ObjectIdType::GenericStringObject, text)
    }

    fn to_hash(&self) -> (s: String) {
        self.id.sqlite_type_and_uid_hash(ObjectIdType::GenericStringObject)
    }

    fn from_hash(hash: &str) -> (r: Option<GenericStringObjectId>) {
        let t = ObjectIdType::GenericStringObject;
        let prefix = concat3(t.sqlite_prefix(), "-", "");
        proof {
            reveal_strlit("");
            assert(prefix@ =~= sqlite_prefix_text(t) + "-"@);
        }
        let r = match server_id_after_prefix(hash, prefix.as_str()) {
            Some(id) => Some(GenericStringObjectId { id }),
            None => None,
        };
        proof {
            assert forall|x: Self| hash@ == Self::hash_text(x@) implies (r matches Some(y) && y@
                == x@) by {
                lemma_hash_prefix_parts(t, x@, hash@);
                lemma_server_id_len(x.id);
            }
        }
        r
    }
}

/// Every server id has 22 characters.
pub proof fn lemma_server_id_len(id: ServerId)
    ensures
        id@.len() == 22,
{
}

/// The id of an object on either side of its first sync: the server's id
/// once assigned, the client's id before.
#[derive(Clone, Copy, PartialEq, Eq, Hash, Debug)]
pub enum SyncId {
    ServerId(ServerId),
    ClientId(ClientId),
}

/// The uid text of a sync id.
pub open spec fn sync_id_text(s: SyncId) -> Seq<char> {
    match s {
        SyncId::ServerId(id) => id@,
        SyncId::ClientId(id) => client_id_text(id@),
    }
}

impl SyncId {
    /// The server id, if the server has assigned one.
    pub fn into_server(self) -> (r: Option<ServerId>)
        ensures
            r == (match self {
                SyncId::ServerId(id) => Some(id),
                SyncId::ClientId(_) => None::<ServerId>,
            }),
    {
        match self {
            SyncId::ServerId(id) => Some(id),
            SyncId::ClientId(_) => None,
        }
    }

    /// The client id, if the server has not assigned an id yet.
    pub fn into_client(self) -> (r: Option<ClientId>)
        ensures
            r == (match self {
                SyncId::ServerId(_) => None::<ClientId>,
                SyncId::ClientId(id) => Some(id),
            }),
    {
        match self {
            SyncId::ServerId(_) => None,
            SyncId::ClientId(id) => Some(id),
        }
    }

    /// The uid: the server id's text, or the client id's text.
    pub fn uid(&self) -> (s: String)
        ensures
            s@ == sync_id_text(*self),
    {
        match self {
            SyncId::ServerId(id) => id.to_string(),
            SyncId::ClientId(id) => id.to_string(),
        }
    }

    /// The text of this id, the same as its uid.
    pub fn to_string(&self) -> (s: String)
        ensures
            s@ == sync_id_text(*self),
    {
        self.uid()
    }
}

impl From<ServerId> for SyncId {
    fn from(id: ServerId) -> (s: SyncId) {
        SyncId::ServerId(id)
    }
}

impl vstd::std_specs::convert::FromSpecImpl<ServerId> for SyncId {
    open spec fn obeys_from_spec() -> bool {
        true
    }

    open spec fn from_spec(id: ServerId) -> SyncId {
        SyncId::ServerId(id)
    }
}

impl From<ClientId> for SyncId {
    fn from(id: ClientId) -> (s: SyncId) {
        SyncId::ClientId(id)
    }
}

impl vstd::std_specs::convert::FromSpecImpl<ClientId> for SyncId {
    open spec fn obeys_from_spec() -> bool {
        true
    }

    open spec fn from_spec(id: ClientId) -> SyncId {
        SyncId::ClientId(id)
    }
}

impl From<FolderId> for SyncId {
    fn from(f: FolderId) -> (s: SyncId)
        ensures
            s matches SyncId::ServerId(id) && id@ == f@,
    {
        SyncId::ServerId(f.id)
    }
}

impl vstd::std_specs::convert::FromSpecImpl<FolderId> for SyncId {
    closed spec fn obeys_from_spec() -> bool {
        true
    }

    closed spec fn from_spec(f: FolderId) -> SyncId {
        SyncId::ServerId(f.id)
    }
}

/// A server id together with the kind of object it identifies.
#[derive(Clone, Copy, PartialEq, Eq, Hash, Debug)]
pub struct ServerIdAndType {
    pub id: ServerId,
    pub id_type: ObjectIdType,
}

impl ServerIdAndType {
    /// The SQLite hash of the id as an object of its kind.
    pub fn sqlite_type_and_uid_hash(&self) -> (s: String)
        ensures
            s@ == sqlite_hash_text(self.id_type, self.id@),
    {
        self.id.sqlite_type_and_uid_hash(self.id_type)
    }
}

/// The position of the last occurrence of `c` in `s`.
pub open spec fn last_index_of(s: Seq<char>, c: char) -> Option<int>
    decreases s.len(),
{
    if s.len() == 0 {
        None
    } else if s.last() == c {
        Some(s.len() - 1)
    } else {
        last_index_of(s.drop_last(), c)
    }
}

/// The uid part of a SQLite id: what follows its last hyphen.
pub open spec fn sqlite_id_uid(s: Seq<char>) -> Option<Seq<char>> {
    match last_index_of(s, '-') {
        Some(i) => Some(s.subrange(i + 1, s.len() as int)),
        None => None,
    }
}

/// The uid of a SQLite id `"<Type>-<uid>"`: the text after the last hyphen,
/// or `None` when the id holds no hyphen.
pub fn parse_sqlite_id_to_uid(id: String) -> (r: Option<String>)
    ensures
        match r {
            Some(u) => sqlite_id_uid(id@) == Some(u@),
            None => sqlite_id_uid(id@) is None,
        },
{
    let cs = chars_of(id.as_str());
    let mut i: usize = cs.len();
    assert(id@.subrange(0, i as int) =~= id@);
    while i > 0
        invariant
            cs@ == id@,
            i <= cs@.len(),
            last_index_of(id@, '-') == last_index_of(id@.subrange(0, i as int), '-'),
        decreases i,
    {
        assert(id@.subrange(0, i as int).drop_last() =~= id@.subrange(0, i - 1));
        if cs[i - 1] == '-' {
            return Some(string_from_range(cs.as_slice(), i, cs.len()));
        }
        i = i - 1;
    }
    None
}

/// The last hyphen of a SQLite hash is the one after the prefix when the
/// uid holds no hyphen, so the uid is read back from the hash.
pub proof fn lemma_sqlite_hash_uid_roundtrip(t: ObjectIdType, uid: Seq<char>)
    requires
        !uid.contains('-'),
    ensures
        sqlite_id_uid(sqlite_hash_text(t, uid)) == Some(uid),
{
    reveal_strlit("-");
    let p = sqlite_prefix_text(t) + "-"@;
    assert(p.last() == '-');
    lemma_last_index_after(p, uid, '-');
    assert(sqlite_hash_text(t, uid) =~= p + uid);
    assert((p + uid).subrange(p.len() as int, (p + uid).len() as int) =~= uid);
}

proof fn lemma_last_index_after(p: Seq<char>, t: Seq<char>, c: char)
    requires
        p.len() > 0,
        p.last() == c,
        !t.contains(c),
    ensures
        last_index_of(p + t, c) == Some(p.len() - 1),
    decreases t.len(),
{
    if t.len() == 0 {
        assert(p + t =~= p);
    } else {
        assert((p + t).drop_last() =~= p + t.drop_last());
        assert((p + t).last() == t.last());
        assert(t.drop_last().contains(c) ==> t.contains(c)) by {
            if t.drop_last().contains(c) {
                let k = choose|k: int| 0 <= k < t.drop_last().len() && t.drop_last()[k] == c;
                assert(t[k] == c);
            }
        }
        assert(t[t.len() - 1] != c);
        lemma_last_index_after(p, t.drop_last(), c);
    }
}

/// Test server ids hold no hyphen, so their SQLite hashes give them back.
pub proof fn lemma_test_uid_has_no_hyphen(v: int)
    requires
        0 <= v < TEST_UID_BOUND,
    ensures
        !test_uid_text(v).contains('-'),
{
    reveal_strlit("test_uid");
    lemma_decimal_padded_digits(v as nat, 14);
    lemma_decimal_padded_len(v as nat, 14);
    let t = test_uid_text(v);
    if t.contains('-') {
        let k = choose|k: int| 0 <= k < t.len() && t[k] == '-';
        if k >= 8 {
            assert(t[k] == decimal_padded(v as nat, 14)[k - 8]);
        }
    }
}

proof fn lemma_decimal_padded_digits(n: nat, w: nat)
    ensures
        forall|k: int|
            0 <= k < decimal_padded(n, w).len() ==> 48 <= (#[trigger] decimal_padded(n, w)[k]) as int
                <= 57,
    decreases w,
{
    if w > 0 {
        lemma_decimal_padded_digits(n / 10, (w - 1) as nat);
        lemma_decimal_padded_len(n / 10, (w - 1) as nat);
        let s = decimal_padded(n, w);
        assert forall|k: int| 0 <= k < s.len() implies 48 <= (#[trigger] s[k]) as int <= 57 by {
            if k < s.len() - 1 {
                assert(s[k] == decimal_padded(n / 10, (w - 1) as nat)[k]);
            }
        }
    }
}

/// Different numbers make different test server ids.
pub proof fn lemma_test_uid_injective(a: int, b: int)
    requires
        0 <= a < TEST_UID_BOUND,
        0 <= b < TEST_UID_BOUND,
        test_uid_text(a) == test_uid_text(b),
    ensures
        a == b,
{
    reveal_strlit("test_uid");
    lemma_decimal_padded_len(a as nat, 14);
    lemma_decimal_padded_len(b as nat, 14);
    assert(test_uid_text(a).subrange(8, 22) =~= decimal_padded(a as nat, 14));
    assert(test_uid_text(b).subrange(8, 22) =~= decimal_padded(b as nat, 14));
    reveal_with_fuel(pow10, 15);
    lemma_decimal_padded_injective(a as nat, b as nat, 14);
}

proof fn lemma_decimal_padded_injective(a: nat, b: nat, w: nat)
    requires
        a < pow10(w),
        b < pow10(w),
        decimal_padded(a, w) == decimal_padded(b, w),
    ensures
        a == b,
    decreases w,
{
    if w > 0 {
        let p = pow10((w - 1) as nat);
        let da = decimal_padded(a, w);
        let db = decimal_padded(b, w);
        assert(da.drop_last() =~= decimal_padded(a / 10, (w - 1) as nat));
        assert(db.drop_last() =~= decimal_padded(b / 10, (w - 1) as nat));
        assert(da.last() == decimal_digit(a % 10));
        assert(db.last() == decimal_digit(b % 10));
        assert((48 + a % 10) as char == (48 + b % 10) as char);
        assert(a % 10 == b % 10);
        assert(a / 10 < p) by (nonlinear_arith)
            requires
                a < 10 * p,
        ;
        assert(b / 10 < p) by (nonlinear_arith)
            requires
                b < 10 * p,
        ;
        lemma_decimal_padded_injective(a / 10, b / 10, (w - 1) as nat);
        assert(a == 10 * (a / 10) + a % 10);
        assert(b == 10 * (b / 10) + b % 10);
    }
}

/// The digits of a padded decimal number have the padded width.
pub proof fn lemma_decimal_padded_len(n: nat, w: nat)
    ensures
        decimal_padded(n, w).len() == w,
    decreases w,
{
    if w > 0 {
        lemma_decimal_padded_len(n / 10, (w - 1) as nat);
    }
}

} // verus!
