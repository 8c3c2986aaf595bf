use vstd::prelude::*;

use crate::strmap::{StrMap, sorted_insert, lemma_sorted_insert_len, lemma_sorted_insert_values};
use crate::pe::{scan_code, ScanError, scan_result, scan_safe_image, pattern_error, headers_ok, code_capture};

verus! {

/// A console variable.
#[derive(Clone, Debug)]
pub struct ConVar {
    pub name: String,
    pub description: String,
    pub flags: i32,
    pub default_value: String,
    pub current_value: Option<String>,
}

/// The model of a console variable: its texts as character sequences.
pub struct ConVarView {
    pub name: Seq<char>,
    pub description: Seq<char>,
    pub flags: i32,
    pub default_value: Seq<char>,
    pub current_value: Option<Seq<char>>,
}

impl View for ConVar {
    type V = ConVarView;

    open spec fn view(&self) -> ConVarView {
        ConVarView {
            name: self.name@,
            description: self.description@,
            flags: self.flags,
            default_value: self.default_value@,
            current_value: match self.current_value {
                Some(v) => Some(v@),
                None => None,
            },
        }
    }
}

/// Console variables by name.
pub type ConVarMap = StrMap<ConVar>;

/// How many list nodes the walk visits at most.
pub const CONVAR_WALK_LIMIT: usize = 20000;

/// Offset of the list head inside the console variable system.
pub const CONVAR_LIST_HEAD_OFFSET: u64 = 0x40;

/// Offset of the value pointer inside a list node.
pub const CONVAR_VALUE_OFFSET: u64 = 0x40;

/// The record kept for a visited node: the default value is left empty and
/// the current value is kept only when values are shown (empty when it could
/// not be read).
pub open spec fn convar_record(
    name: Seq<char>,
    description: Seq<char>,
    flags: i32,
    show_values: bool,
    value: Option<Seq<char>>,
) -> ConVarView {
    ConVarView {
        name,
        description,
        flags,
        default_value: Seq::empty(),
        current_value: if show_values {
            Some(
                match value {
                    Some(v) => v,
                    None => Seq::empty(),
                },
            )
        } else {
            None
        },
    }
}

/// What holds of every record the console variable walk keeps: it is filed
/// under its own name, which is not empty; its default value is empty; and it
/// has a current value exactly when values are shown.
pub open spec fn convar_entry_ok(e: (Seq<char>, ConVarView), show_values: bool) -> bool {
    &&& e.1.name == e.0
    &&& e.0.len() > 0
    &&& e.1.default_value == Seq::<char>::empty()
    &&& (e.1.current_value is Some <==> show_values)
}

/// Every record of the list is as `convar_entry_ok` says.
pub open spec fn convar_entries_ok(s: Seq<(Seq<char>, ConVarView)>, show_values: bool) -> bool {
    forall|i: int| 0 <= i < s.len() ==> convar_entry_ok(#[trigger] s[i], show_values)
}

/// The state of the walk over the engine's linked list of console variables.
/// The caller reads each node and reports it with `visit`; the walk decides
/// whether to go on and keeps the records.
pub struct ConVarWalk {
    results: ConVarMap,
    count: usize,
    show_values: bool,
}

impl ConVarWalk {
    /// The records collected so far, by name.
    pub closed spec fn records(&self) -> Seq<(Seq<char>, ConVarView)> {
        self.results@
    }

    /// Number of nodes recorded so far.
    pub closed spec fn visited(&self) -> nat {
        self.count as nat
    }

    /// Whether current values are read.
    pub closed spec fn shows_values(&self) -> bool {
        self.show_values
    }

    /// The walk's invariant.
    pub closed spec fn wf(&self) -> bool {
        &&& self.results.wf()
        &&& self.count <= CONVAR_WALK_LIMIT
        &&& self.results@.len() <= self.count
        &&& convar_entries_ok(self.results@, self.show_values)
    }

    /// Whatever the walk has visited, it keeps at most one record per visited
    /// node, so at most `CONVAR_WALK_LIMIT`, and every record is filed under
    /// its own non-empty name, with an empty default value and a current value
    /// exactly when values are shown.
    pub proof fn law_walk_records(&self)
        requires
            self.wf(),
        ensures
            self.records().len() <= self.visited() <= CONVAR_WALK_LIMIT,
            convar_entries_ok(self.records(), self.shows_values()),
    {
    }

    /// A walk that has visited nothing.
    pub fn new(show_values: bool) -> (w: Self)
        ensures
            w.wf(),
            w.records() == Seq::<(Seq<char>, ConVarView)>::empty(),
            w.visited() == 0,
            w.shows_values() == show_values,
    {
        ConVarWalk { results: StrMap::new(), count: 0, show_values }
    }

    /// Whether the node at `node_addr` is visited: the list goes on while the
    /// link is not null and the limit is not reached.
    pub fn continues(&self, node_addr: u64) -> (r: bool)
        ensures
            r == (node_addr != 0 && self.visited() < CONVAR_WALK_LIMIT),
    {
        node_addr != 0 && self.count < CONVAR_WALK_LIMIT
    }

    /// Whether the current value of each node is read.
    pub fn reads_values(&self) -> (r: bool)
        ensures
            r == self.shows_values(),
    {
        self.show_values
    }

    /// Records a visited node. A node with an empty name ends the walk and is
    /// not recorded; otherwise the record replaces any earlier one of the same
    /// name and the walk goes on.
    pub fn visit(
        &mut self,
        name: String,
        description: String,
        flags: i32,
        value: Option<String>,
    ) -> (go_on: bool)
        requires
            old(self).wf(),
            old(self).visited() < CONVAR_WALK_LIMIT,
        ensures
            final(self).wf(),
            final(self).shows_values() == old(self).shows_values(),
            go_on == (name@.len() > 0),
            !go_on ==> final(self).records() == old(self).records() && final(self).visited()
                == old(self).visited(),
            go_on ==> final(self).records() == sorted_insert(
                old(self).records(),
                name@,
                convar_record(
                    name@,
                    description@,
                    flags,
                    old(self).shows_values(),
                    match value {
                        Some(v) => Some(v@),
                        None => None,
                    },
                ),
            ) && final(self).visited() == old(self).visited() + 1,
    {
        if name.as_str().is_empty() {
            return false;
        }
        let current_value = if self.show_values {
            match value {
                Some(v) => Some(v),
                None => Some(String::new()),
            }
        } else {
            None
        };
        let key = name.clone();
        let cv = ConVar { name, description, flags, default_value: String::new(), current_value };
        proof {
            lemma_sorted_insert_len(self.results@, key@, cv@);
            lemma_sorted_insert_values(self.results@, key@, cv@);
            assert(cv@.default_value =~= Seq::<char>::empty());
        }
        self.results.insert(key, cv);
        self.count = self.count + 1;
        proof {
            assert forall|i: int| 0 <= i < self.results@.len() implies convar_entry_ok(
                #[trigger] self.results@[i],
                self.show_values,
            ) by {
                if self.results@[i] != (key@, cv@) {
                    let j = choose|j: int|
                        0 <= j < old(self).results@.len() && old(self).results@[j] == self.results@[i];
                    assert(convar_entry_ok(old(self).results@[j], self.show_values));
                }
            }
        }
        true
    }

    /// The collected console variables.
    pub fn finish(self) -> (m: ConVarMap)
        requires
            self.wf(),
        ensures
            m.wf(),
            m@ == self.records(),
            m@.len() <= CONVAR_WALK_LIMIT,
            convar_entries_ok(m@, self.shows_values()),
    {
        self.results
    }
}

/// The address of the list head, given the address of the console variable
/// system.
pub fn list_head_address(system: u64) -> (a: u64)
    requires
        system + CONVAR_LIST_HEAD_OFFSET <= u64::MAX,
    ensures
        a == system + CONVAR_LIST_HEAD_OFFSET,
{
    system + CONVAR_LIST_HEAD_OFFSET
}

/// The address of a node's value pointer.
pub fn value_pointer_address(node: u64) -> (a: u64)
    requires
        node + CONVAR_VALUE_OFFSET <= u64::MAX,
    ensures
        a == node + CONVAR_VALUE_OFFSET,
{
    node + CONVAR_VALUE_OFFSET
}

/// The code pattern that loads the console variable system.
pub const CVAR_PATTERN: &'static str = "48 8b 0d ${'} 48 85 c9 74 1d 48 8b 01 ff 50 10";

/// The pattern tried when `CVAR_PATTERN` has no unique match.
pub const CVAR_FALLBACK_PATTERN: &'static str = "48 8b 0d ${'} 48 85 c9 0f 84 ? ? ? ? 48 8b 01 ff 50 10";

/// What [`locate_cvar_system`] gives back: the primary pattern's search
/// decides unless it finds no unique match, and only then does the fallback
/// pattern's search decide.
pub open spec fn cvar_located(image: Seq<u8>, r: Result<Option<u32>, ScanError>) -> bool {
    match pattern_error(CVAR_PATTERN@) {
        Some(e) => r == Err::<Option<u32>, ScanError>(e),
        None => if !headers_ok(image) {
            r == Err::<Option<u32>, ScanError>(ScanError::BadImage)
        } else {
            r == Err::<Option<u32>, ScanError>(ScanError::BadImage) || match code_capture(
                image,
                CVAR_PATTERN@,
            ) {
                Some(rva) => r == Ok::<Option<u32>, ScanError>(Some(rva)),
                None => scan_result(image, CVAR_FALLBACK_PATTERN@, r),
            }
        },
    }
}

/// Finds where the console variable system pointer lives in the image of
/// `tier0.dll`, as an offset from the module base: the primary pattern first,
/// then the fallback. `Ok(None)` means neither matches, and the walk then
/// yields no console variables.
pub fn locate_cvar_system(image: &[u8]) -> (r: Result<Option<u32>, ScanError>)
    requires
        scan_safe_image(image@),
    ensures
        cvar_located(image@, r),
{
    match scan_code(image, CVAR_PATTERN)? {
        Some(rva) => Ok(Some(rva)),
        None => scan_code(image, CVAR_FALLBACK_PATTERN),
    }
}

} // verus!
