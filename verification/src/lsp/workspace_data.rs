//! Directories in which language servers keep their data.
//!
//! Each server has a directory per workspace, and in it as many slots as are in use at the same
//! time. A slot belongs to whoever holds the lock in it.

use crate::decimal::{decimal, is_digit, law_decimal_is_read_back, print_number};
use crate::path::{join, joined};
use crate::text::{chars_between, chars_of, str_eq, string_of};
use vstd::prelude::*;
use vstd::utf8::encode_utf8;

verus! {

/// The BLAKE3 hash of some bytes, in hexadecimal notation.
pub uninterp spec fn blake3_hex(bytes: Seq<u8>) -> Seq<char>;

/// Whether `c` is a digit of the hexadecimal notation.
pub open spec fn is_hex_digit(c: char) -> bool {
    is_digit(c) || ('a' <= c && c <= 'f')
}

/// Whether a text is a hash in hexadecimal notation.
pub open spec fn is_hash(text: Seq<char>) -> bool {
    text.len() == 64 && forall|i: int| 0 <= i < text.len() ==> is_hex_digit(#[trigger] text[i])
}

/// Calls `blake3::hash` and `blake3::Hash::to_hex`: the hash of some bytes, as 64 hexadecimal
/// digits.
#[verifier::external_body]
fn hash_hex(bytes: &[u8]) -> (hex: String)
    ensures
        hex@ == blake3_hex(bytes@),
        is_hash(hex@),
{
    blake3::hash(bytes).to_hex().to_string()
}

/// Whether a character can stand in the name of a directory as it is.
pub open spec fn is_plain_char(c: char) -> bool {
    ||| ('a' <= c && c <= 'z')
    ||| ('A' <= c && c <= 'Z')
    ||| is_digit(c)
    ||| c == '.'
    ||| c == '_'
    ||| c == '-'
}

/// The first 48 characters of a text, with `_` for those that cannot stand in a name.
pub open spec fn plain_prefix(value: Seq<char>) -> Seq<char> {
    Seq::new(
        if value.len() < 48 {
            value.len()
        } else {
            48
        },
        |i: int|
            if is_plain_char(value[i]) {
                value[i]
            } else {
                '_'
            },
    )
}

/// A text as the name of a directory. What would name no directory, or another one, is called
/// `server`.
pub open spec fn sanitized(value: Seq<char>) -> Seq<char> {
    let plain = plain_prefix(value);
    if plain == ""@ || plain == "."@ || plain == ".."@ {
        "server"@
    } else {
        plain
    }
}

fn plain_char(c: char) -> (plain: bool)
    ensures
        plain == is_plain_char(c),
{
    ('a' <= c && c <= 'z') || ('A' <= c && c <= 'Z') || ('0' <= c && c <= '9') || c == '.' || c
        == '_' || c == '-'
}

/// A text as the name of a directory. See [`sanitized`].
pub fn sanitize_component(value: &str) -> (name: String)
    ensures
        name@ == sanitized(value@),
{
    let chars = chars_of(value);
    let mut plain: Vec<char> = Vec::new();
    let mut i: usize = 0;
    while i < chars.len() && i < 48
        invariant
            i <= chars.len(),
            i <= 48,
            chars@ == value@,
            plain@.len() == i,
            forall|j: int| 0 <= j < i ==> #[trigger] plain@[j] == plain_prefix(value@)[j],
        decreases chars.len() - i,
    {
        if plain_char(chars[i]) {
            plain.push(chars[i]);
        } else {
            plain.push('_');
        }
        i += 1;
    }
    assert(plain@ =~= plain_prefix(value@));
    let name = string_of(plain.as_slice());
    if str_eq(name.as_str(), "") || str_eq(name.as_str(), ".") || str_eq(name.as_str(), "..") {
        return "server".to_owned();
    }
    name
}

/// The name of the directory of a server, which ends in the hash `server_hash` of the server's name
/// so that servers of similar names have different ones.
pub open spec fn server_directory(server_id: Seq<char>, server_hash: Seq<char>) -> Seq<char> {
    sanitized(server_id) + "-"@ + server_hash.take(8)
}

/// The directory of a server for a workspace, whose root has the hash `root_hash`.
pub open spec fn workspace_directory(
    cache_dir: Seq<char>,
    server_id: Seq<char>,
    server_hash: Seq<char>,
    root_hash: Seq<char>,
) -> Seq<char> {
    joined(
        joined(joined(cache_dir, "lsp"@), server_directory(server_id, server_hash)),
        root_hash,
    )
}

/// The directory of a server for a workspace, by the hashes of the server's name and of the
/// workspace's root. See [`workspace_directory`].
pub fn workspace_directory_of(
    cache_dir: &str,
    server_id: &str,
    server_hash: &str,
    root_hash: &str,
) -> (directory: String)
    requires
        server_hash@.len() >= 8,
    ensures
        directory@ == workspace_directory(cache_dir@, server_id@, server_hash@, root_hash@),
{
    let mut name = sanitize_component(server_id);
    name.append("-");
    let hash = chars_of(server_hash);
    let short = chars_between(hash.as_slice(), 0, 8);
    assert(short@ =~= server_hash@.take(8));
    let short = string_of(short.as_slice());
    name.append(short.as_str());
    let base = join(cache_dir, "lsp");
    let server = join(base.as_str(), name.as_str());
    join(server.as_str(), root_hash)
}

/// The directory of a slot.
pub open spec fn slot_directory(workspace: Seq<char>, slot: u32) -> Seq<char> {
    joined(workspace, decimal(slot as nat))
}

/// Where the data of a slot is kept.
pub open spec fn data_directory(workspace: Seq<char>, slot: u32) -> Seq<char> {
    joined(slot_directory(workspace, slot), "data"@)
}

/// The search for a slot that is free.
pub struct SlotSearch {
    workspace_dir: String,
    slot: u32,
}

/// How locking a slot went.
pub enum LockOutcome {
    Locked,
    /// Someone else holds the lock.
    WouldBlock,
    Failed,
}

/// A directory for the data of a server, in a slot that is locked.
pub struct WorkspaceDataLease {
    data_dir: String,
}

/// What a search for a slot comes to.
pub enum SlotStep {
    /// The slot is free, and is taken now.
    Acquired(WorkspaceDataLease),
    /// The next slot is to be tried.
    TryNext,
    /// No slot is left.
    Exhausted,
    /// The slot cannot be locked.
    Failed(String),
}

/// What the meaning of a [`SlotStep`] is: a lease is where its data is kept.
pub enum SlotStepSpec {
    Acquired(Seq<char>),
    TryNext,
    Exhausted,
    Failed(Seq<char>),
}

impl View for SlotStep {
    type V = SlotStepSpec;

    open spec fn view(&self) -> SlotStepSpec {
        match *self {
            SlotStep::Acquired(lease) => SlotStepSpec::Acquired(lease.spec_data_dir()),
            SlotStep::TryNext => SlotStepSpec::TryNext,
            SlotStep::Exhausted => SlotStepSpec::Exhausted,
            SlotStep::Failed(message) => SlotStepSpec::Failed(message@),
        }
    }
}

/// What a search comes to after an attempt to lock the slot `slot`, and the slot that it is at
/// then. A slot that can be locked is taken, and behind one that someone else holds comes the next.
pub open spec fn slot_step(workspace: Seq<char>, slot: u32, outcome: LockOutcome) -> (
    u32,
    SlotStepSpec,
) {
    match outcome {
        LockOutcome::Locked => (slot, SlotStepSpec::Acquired(data_directory(workspace, slot))),
        LockOutcome::WouldBlock => if slot < u32::MAX {
            ((slot + 1) as u32, SlotStepSpec::TryNext)
        } else {
            (slot, SlotStepSpec::Exhausted)
        },
        LockOutcome::Failed => (
            slot,
            SlotStepSpec::Failed(
                "Failed to lock LSP data slot "@ + joined(
                    slot_directory(workspace, slot),
                    ".lock"@,
                ),
            ),
        ),
    }
}

/// How locking a slot goes while the slots in `held` are leased: whoever holds a lease holds the
/// lock.
pub open spec fn lock_outcome(held: Set<u32>, slot: u32) -> LockOutcome {
    if held.contains(slot) {
        LockOutcome::WouldBlock
    } else {
        LockOutcome::Locked
    }
}

/// What is meant by a lease: a slot, and where its data is kept.
pub struct LeaseSpec {
    pub slot: u32,
    pub data_dir: Seq<char>,
}

/// The slot that a search from `slot` on takes while the slots in `held` are leased, and where its
/// data is kept.
pub open spec fn leased(workspace: Seq<char>, held: Set<u32>, slot: u32) -> Option<LeaseSpec>
    decreases u32::MAX - slot,
{
    match slot_step(workspace, slot, lock_outcome(held, slot)) {
        (at, SlotStepSpec::Acquired(directory)) => Some(
            LeaseSpec { slot: at, data_dir: directory },
        ),
        (next, SlotStepSpec::TryNext) => if next > slot {
            leased(workspace, held, next)
        } else {
            None
        },
        _ => None,
    }
}

impl WorkspaceDataLease {
    /// Where the data is kept.
    pub closed spec fn spec_data_dir(self) -> Seq<char> {
        self.data_dir@
    }

    /// Where the data is kept.
    pub fn data_dir(&self) -> (directory: &str)
        ensures
            directory@ == self.spec_data_dir(),
    {
        self.data_dir.as_str()
    }

    /// The search for a slot for a server, for the workspace whose root has the path `root`.
    pub fn acquire(cache_dir: &str, server_id: &str, root: &[u8]) -> (search: SlotSearch)
        ensures
            search.spec_slot() == 0,
            search.spec_workspace_dir() == workspace_directory(
                cache_dir@,
                server_id@,
                blake3_hex(encode_utf8(server_id@)),
                blake3_hex(root@),
            ),
            is_hash(blake3_hex(encode_utf8(server_id@))),
            is_hash(blake3_hex(root@)),
    {
        let root_hash = hash_hex(root);
        let server_hash = hash_hex(server_id.as_bytes());
        let workspace_dir = workspace_directory_of(
            cache_dir,
            server_id,
            server_hash.as_str(),
            root_hash.as_str(),
        );
        SlotSearch { workspace_dir, slot: 0 }
    }
}

impl SlotSearch {
    /// The slot that is to be tried.
    pub closed spec fn spec_slot(self) -> u32 {
        self.slot
    }

    /// The directory that holds the slots.
    pub closed spec fn spec_workspace_dir(self) -> Seq<char> {
        self.workspace_dir@
    }

    /// The directory that holds the slots.
    pub fn workspace_dir(&self) -> (directory: &str)
        ensures
            directory@ == self.spec_workspace_dir(),
    {
        self.workspace_dir.as_str()
    }

    /// The directory of the slot that is to be tried.
    pub fn slot_dir(&self) -> (directory: String)
        ensures
            directory@ == slot_directory(self.spec_workspace_dir(), self.spec_slot()),
    {
        let slot = print_number(self.slot as u64);
        join(self.workspace_dir.as_str(), slot.as_str())
    }

    /// The file that is to be locked.
    pub fn lock_path(&self) -> (path: String)
        ensures
            path@ == joined(
                slot_directory(self.spec_workspace_dir(), self.spec_slot()),
                ".lock"@,
            ),
    {
        let directory = self.slot_dir();
        join(directory.as_str(), ".lock")
    }

    /// Goes on with the search after an attempt to lock the slot. See [`slot_step`].
    pub fn try_acquire_slot(&mut self, outcome: LockOutcome) -> (step: SlotStep)
        ensures
            final(self).spec_workspace_dir() == old(self).spec_workspace_dir(),
            (final(self).spec_slot(), step@) == slot_step(
                old(self).spec_workspace_dir(),
                old(self).spec_slot(),
                outcome,
            ),
    {
        match outcome {
            LockOutcome::Locked => {
                let directory = self.slot_dir();
                SlotStep::Acquired(
                    WorkspaceDataLease { data_dir: join(directory.as_str(), "data") },
                )
            },
            LockOutcome::WouldBlock => {
                if self.slot < u32::MAX {
                    self.slot = self.slot + 1;
                    SlotStep::TryNext
                } else {
                    SlotStep::Exhausted
                }
            },
            LockOutcome::Failed => {
                let mut text = "Failed to lock LSP data slot ".to_owned();
                let path = self.lock_path();
                text.append(path.as_str());
                SlotStep::Failed(text)
            },
        }
    }
}

/// Whether a text names an entry of a directory, and neither the directory itself nor another one.
pub open spec fn is_entry_name(name: Seq<char>) -> bool {
    &&& name.len() > 0
    &&& !name.contains('/')
    &&& name != "."@
    &&& name != ".."@
}

/// Whatever a server is called, what its name comes to is the name of an entry of a directory, with
/// plain characters and of limited length.
pub proof fn law_server_names_are_entry_names(value: Seq<char>)
    ensures
        is_entry_name(sanitized(value)),
        sanitized(value).len() <= 48,
        forall|i: int|
            0 <= i < sanitized(value).len() ==> is_plain_char(#[trigger] sanitized(value)[i]),
{
    reveal_strlit("server");
    reveal_strlit("");
    reveal_strlit(".");
    reveal_strlit("..");
    let plain = plain_prefix(value);
    if plain.len() == 0 {
        assert(plain =~= ""@);
    }
    assert forall|i: int| 0 <= i < sanitized(value).len() implies is_plain_char(
        #[trigger] sanitized(value)[i],
    ) by {}
    assert(sanitized(value) != "."@) by {
        assert("server"@.len() == 6);
        assert("."@.len() == 1);
    }
    assert(sanitized(value) != ".."@) by {
        assert("server"@.len() == 6);
        assert(".."@.len() == 2);
    }
}

/// The name of a server stays as it is where it can be the name of a directory. What a name comes
/// to is such a name.
pub proof fn law_plain_names_stay(value: Seq<char>)
    ensures
        value.len() <= 48 && is_entry_name(value) && (forall|i: int|
            0 <= i < value.len() ==> is_plain_char(#[trigger] value[i])) ==> sanitized(value)
            == value,
        sanitized(sanitized(value)) == sanitized(value),
{
    law_server_names_are_entry_names(value);
    lemma_plain_name(value);
    lemma_plain_name(sanitized(value));
}

proof fn lemma_plain_name(value: Seq<char>)
    ensures
        value.len() <= 48 && is_entry_name(value) && (forall|i: int|
            0 <= i < value.len() ==> is_plain_char(#[trigger] value[i])) ==> sanitized(value)
            == value,
{
    if value.len() <= 48 && is_entry_name(value) && (forall|i: int|
        0 <= i < value.len() ==> is_plain_char(#[trigger] value[i])) {
        reveal_strlit("");
        assert(plain_prefix(value) =~= value);
    }
}

proof fn lemma_joined_entry(base: Seq<char>, name: Seq<char>)
    requires
        base.len() > 0,
        base.last() != '/',
        is_entry_name(name),
    ensures
        joined(base, name) == base + "/"@ + name,
        joined(base, name).last() != '/',
{
    reveal_strlit("/");
    assert(name[0] != '/') by {
        assert(name.contains(name[0]));
    }
    assert(name.last() != '/') by {
        assert(name.contains(name.last()));
    }
    assert(joined(base, name).last() == name.last());
}

proof fn lemma_server_directory(server_id: Seq<char>, server_hash: Seq<char>)
    requires
        is_hash(server_hash),
    ensures
        is_entry_name(server_directory(server_id, server_hash)),
{
    law_server_names_are_entry_names(server_id);
    reveal_strlit("-");
    reveal_strlit(".");
    reveal_strlit("..");
    let name = server_directory(server_id, server_hash);
    let plain = sanitized(server_id);
    assert forall|i: int| 0 <= i < name.len() implies name[i] != '/' by {
        if i < plain.len() {
            assert(name[i] == plain[i]);
            assert(plain.contains(plain[i]));
        } else if i > plain.len() {
            assert(name[i] == server_hash[i - plain.len() - 1]);
        }
    }
    assert(name.len() >= 9);
    assert("."@.len() == 1);
    assert(".."@.len() == 2);
}

/// Whatever a server and the cache directory are called, the data of the server is kept below the
/// cache directory: the path of the data is that of the directory `lsp` in the cache directory,
/// followed by four names of entries, none of which leads up.
pub proof fn law_data_stays_below_the_cache(
    cache_dir: Seq<char>,
    server_id: Seq<char>,
    server_hash: Seq<char>,
    root_hash: Seq<char>,
    slot: u32,
)
    requires
        is_hash(server_hash),
        is_hash(root_hash),
    ensures
        is_entry_name("lsp"@),
        is_entry_name(server_directory(server_id, server_hash)),
        is_entry_name(root_hash),
        is_entry_name(decimal(slot as nat)),
        is_entry_name("data"@),
        joined(cache_dir, "lsp"@) == cache_dir + "lsp"@ || joined(cache_dir, "lsp"@) == cache_dir
            + "/"@ + "lsp"@,
        data_directory(
            workspace_directory(cache_dir, server_id, server_hash, root_hash),
            slot,
        ) == joined(cache_dir, "lsp"@) + "/"@ + server_directory(server_id, server_hash) + "/"@
            + root_hash + "/"@ + decimal(slot as nat) + "/"@ + "data"@,
{
    reveal_strlit("lsp");
    reveal_strlit("data");
    reveal_strlit(".");
    reveal_strlit("..");
    assert("."@.len() == 1 && ".."@.len() == 2 && "lsp"@.len() == 3 && "data"@.len() == 4);
    lemma_server_directory(server_id, server_hash);
    law_decimal_is_read_back(slot as nat, u32::MAX as nat);
    let number = decimal(slot as nat);
    assert forall|i: int| 0 <= i < number.len() implies number[i] != '/' by {
        assert(is_digit(number[i]));
    }
    assert(is_digit(number[0]));
    let server = server_directory(server_id, server_hash);
    let base = joined(cache_dir, "lsp"@);
    assert("lsp"@[0] == 'l');
    assert(base.last() == "lsp"@.last());
    lemma_joined_entry(base, server);
    let workspace_parent = joined(base, server);
    assert(root_hash[0] != '.');
    lemma_joined_entry(workspace_parent, root_hash);
    let workspace = workspace_directory(cache_dir, server_id, server_hash, root_hash);
    lemma_joined_entry(workspace, number);
    lemma_joined_entry(joined(workspace, number), "data"@);
}

/// Two paths that go on behind the same directory with an entry, and lead further, agree in that
/// entry.
proof fn lemma_same_entry(base: Seq<char>, one: Seq<char>, two: Seq<char>, a: Seq<char>, b: Seq<
    char,
>)
    requires
        !one.contains('/'),
        !two.contains('/'),
        base + "/"@ + one + "/"@ + a == base + "/"@ + two + "/"@ + b,
    ensures
        one == two,
        a == b,
{
    reveal_strlit("/");
    let left = base + "/"@ + one + "/"@ + a;
    let right = base + "/"@ + two + "/"@ + b;
    let start: int = base.len() as int + 1;
    assert(left[start + one.len()] == '/');
    assert(right[start + two.len()] == '/');
    if one.len() < two.len() {
        assert(right[start + one.len()] == two[one.len() as int]);
        assert(two.contains(two[one.len() as int]));
    } else if two.len() < one.len() {
        assert(left[start + two.len()] == one[two.len() as int]);
        assert(one.contains(one[two.len() as int]));
    }
    assert(left.subrange(start, start + one.len()) =~= one);
    assert(right.subrange(start, start + two.len()) =~= two);
    assert(left.skip(start + one.len() + 1) =~= a);
    assert(right.skip(start + two.len() + 1) =~= b);
}

/// Data is kept apart: where two directories for data in one cache are the same, they are for the
/// same name of a server, for roots of the same hash, and for the same slot.
pub proof fn law_data_is_kept_apart(
    cache_dir: Seq<char>,
    server_id: Seq<char>,
    server_hash: Seq<char>,
    root_hash: Seq<char>,
    slot: u32,
    other_id: Seq<char>,
    other_server_hash: Seq<char>,
    other_root_hash: Seq<char>,
    other_slot: u32,
)
    requires
        is_hash(server_hash),
        is_hash(root_hash),
        is_hash(other_server_hash),
        is_hash(other_root_hash),
        data_directory(workspace_directory(cache_dir, server_id, server_hash, root_hash), slot)
            == data_directory(
            workspace_directory(cache_dir, other_id, other_server_hash, other_root_hash),
            other_slot,
        ),
    ensures
        sanitized(server_id) == sanitized(other_id),
        server_hash.take(8) == other_server_hash.take(8),
        root_hash == other_root_hash,
        slot == other_slot,
{
    law_data_stays_below_the_cache(cache_dir, server_id, server_hash, root_hash, slot);
    law_data_stays_below_the_cache(
        cache_dir,
        other_id,
        other_server_hash,
        other_root_hash,
        other_slot,
    );
    let base = joined(cache_dir, "lsp"@);
    let one = server_directory(server_id, server_hash);
    let two = server_directory(other_id, other_server_hash);
    let first = decimal(slot as nat);
    let second = decimal(other_slot as nat);
    let data = "data"@;
    let slash = "/"@;
    let a = root_hash + slash + first + slash + data;
    let b = other_root_hash + slash + second + slash + data;
    let left = base + slash + one + slash + root_hash + slash + first + slash + data;
    let right = base + slash + two + slash + other_root_hash + slash + second + slash + data;
    assert(left == right);
    assert(left =~= base + slash + one + slash + a);
    assert(right =~= base + slash + two + slash + b);
    lemma_same_entry(base, one, two, a, b);
    reveal_strlit("-");
    let plain = sanitized(server_id);
    let other = sanitized(other_id);
    assert(one.len() == plain.len() + 9);
    assert(two.len() == other.len() + 9);
    assert(one.take(plain.len() as int) =~= plain);
    assert(two.take(other.len() as int) =~= other);
    assert(one.skip(plain.len() as int + 1) =~= server_hash.take(8));
    assert(two.skip(other.len() as int + 1) =~= other_server_hash.take(8));
    assert(a.take(64) =~= root_hash);
    assert(b.take(64) =~= other_root_hash);
    let front = base + slash + one;
    assert(left =~= front + slash + root_hash + slash + (first + slash + data));
    let before = front + slash + root_hash;
    assert(left =~= before + slash + first + slash + data);
    assert(right =~= before + slash + second + slash + data);
    lemma_same_entry(before, first, second, data, data);
    law_decimal_is_read_back(slot as nat, u32::MAX as nat);
    law_decimal_is_read_back(other_slot as nat, u32::MAX as nat);
}

proof fn lemma_leased(workspace: Seq<char>, held: Set<u32>, slot: u32, free: u32)
    requires
        slot <= free,
        !held.contains(free),
    ensures
        match leased(workspace, held, slot) {
            Some(LeaseSpec { slot: taken, data_dir: directory }) => {
                &&& slot <= taken <= free
                &&& !held.contains(taken)
                &&& forall|lower: u32| slot <= lower < taken ==> held.contains(lower)
                &&& directory == data_directory(workspace, taken)
            },
            None => false,
        },
    decreases free - slot,
{
    if held.contains(slot) {
        lemma_leased(workspace, held, (slot + 1) as u32, free);
    }
}

/// While a slot is free, a search finds one: the first slot that no lease holds. So a slot that is
/// leased is never given to another lease.
pub proof fn law_the_first_free_slot_is_leased(workspace: Seq<char>, held: Set<u32>, free: u32)
    requires
        !held.contains(free),
    ensures
        match leased(workspace, held, 0) {
            Some(LeaseSpec { slot: taken, data_dir: directory }) => {
                &&& taken <= free
                &&& !held.contains(taken)
                &&& forall|lower: u32| lower < taken ==> held.contains(lower)
                &&& directory == data_directory(workspace, taken)
            },
            None => false,
        },
{
    lemma_leased(workspace, held, 0, free);
}

/// Leases that are held at the same time keep their data in different directories: whatever leases
/// there are for a server and a workspace, the next one has a directory that none of them has.
pub proof fn law_leases_are_kept_apart(
    cache_dir: Seq<char>,
    server_id: Seq<char>,
    server_hash: Seq<char>,
    root_hash: Seq<char>,
    held: Set<u32>,
    free: u32,
)
    requires
        is_hash(server_hash),
        is_hash(root_hash),
        !held.contains(free),
    ensures
        ({
            let workspace = workspace_directory(cache_dir, server_id, server_hash, root_hash);
            &&& leased(workspace, held, 0) is Some
            &&& forall|slot: u32| #[trigger]
                held.contains(slot) ==> data_directory(workspace, slot) != leased(
                    workspace,
                    held,
                    0,
                )->0.data_dir
        }),
{
    let workspace = workspace_directory(cache_dir, server_id, server_hash, root_hash);
    lemma_leased(workspace, held, 0, free);
    let taken = leased(workspace, held, 0)->0.slot;
    assert forall|slot: u32| #[trigger] held.contains(slot) implies data_directory(workspace, slot)
        != leased(workspace, held, 0)->0.data_dir by {
        if data_directory(workspace, slot) == data_directory(workspace, taken) {
            law_data_is_kept_apart(
                cache_dir,
                server_id,
                server_hash,
                root_hash,
                slot,
                server_id,
                server_hash,
                root_hash,
                taken,
            );
        }
    }
}

/// A slot that is released is given again: to the next lease, where no lower slot is free. A lease
/// that is taken and released at once changes nothing, so the next one is for the same slot.
pub proof fn law_released_slots_are_given_again(workspace: Seq<char>, held: Set<u32>, slot: u32)
    requires
        forall|lower: u32| lower < slot ==> held.contains(lower),
    ensures
        leased(workspace, held.remove(slot), 0) == Some(
            LeaseSpec { slot, data_dir: data_directory(workspace, slot) },
        ),
        match leased(workspace, held, 0) {
            Some(lease) => leased(workspace, held.insert(lease.slot).remove(lease.slot), 0)
                == Some(lease),
            None => true,
        },
{
    lemma_leased(workspace, held.remove(slot), 0, slot);
    let taken = leased(workspace, held.remove(slot), 0)->0.slot;
    assert(!held.remove(slot).contains(taken));
    if let Some(lease) = leased(workspace, held, 0) {
        lemma_leased_is_free(workspace, held, 0);
        assert(held.insert(lease.slot).remove(lease.slot) =~= held);
    }
}

proof fn lemma_leased_is_free(workspace: Seq<char>, held: Set<u32>, slot: u32)
    ensures
        leased(workspace, held, slot) is Some ==> !held.contains(
            leased(workspace, held, slot)->0.slot,
        ),
    decreases u32::MAX - slot,
{
    if held.contains(slot) && slot < u32::MAX {
        lemma_leased_is_free(workspace, held, (slot + 1) as u32);
    }
}

} // verus!
