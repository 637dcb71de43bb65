//! The flag domain: a set of named runtime capabilities, one bit per capability.

use vstd::prelude::*;
use vstd::string::*;

verus! {

/// Bit of the module-loading function itself.
pub const REQUIRE: u64 = 0x01;

/// Bit of the table of chunk-loading handlers.
pub const ENSURE_CHUNK_HANDLERS: u64 = 0x02;

/// Bit of the function through which a loaded chunk installs itself.
pub const EXTERNAL_INSTALL_CHUNK: u64 = 0x04;

/// Bit of the deferred-startup queue.
pub const ON_CHUNKS_LOADED: u64 = 0x08;

/// Bit of the base URI of the running script.
pub const BASE_URI: u64 = 0x10;

/// Bit of the module-factory table when it is only ever added to.
pub const MODULE_FACTORIES_ADD_ONLY: u64 = 0x20;

/// Bit of the own-property test helper.
pub const HAS_OWN_PROPERTY: u64 = 0x40;

/// Bit of the function that maps a chunk id to its script file name.
pub const GET_CHUNK_SCRIPT_FILENAME: u64 = 0x80;

/// A set of runtime capabilities.
///
/// The set is the bit vector `bits`: a capability is a member exactly when its
/// bit is set. Every `u64` is a valid set; bits without a name are carried
/// along untouched.
#[derive(Clone, Copy, Debug, PartialEq, Eq, Structural, Hash)]
pub struct RuntimeGlobals {
    pub bits: u64,
}

/// `a` is a subset of `b`, as bit vectors.
pub open spec fn bits_subset(a: u64, b: u64) -> bool {
    b & a == a
}

/// The bit vector with the single bit at `position` set.
pub open spec fn bit_at(position: int) -> u64 {
    1u64 << (position as u64)
}

impl RuntimeGlobals {
    /// Every member of `other` is a member of `self`.
    pub open spec fn spec_contains(self, other: RuntimeGlobals) -> bool {
        bits_subset(other.bits, self.bits)
    }

    /// Every member of `self` is a member of `other`.
    pub open spec fn subset_of(self, other: RuntimeGlobals) -> bool {
        bits_subset(self.bits, other.bits)
    }

    /// The members of `self` together with those of `other`.
    pub open spec fn spec_union(self, other: RuntimeGlobals) -> RuntimeGlobals {
        RuntimeGlobals { bits: self.bits | other.bits }
    }

    /// `self` together with the named bits `mask`.
    pub open spec fn with(self, mask: u64) -> RuntimeGlobals {
        RuntimeGlobals { bits: self.bits | mask }
    }

    /// All bits of `mask` are members.
    pub open spec fn has(self, mask: u64) -> bool {
        bits_subset(mask, self.bits)
    }

    /// The set without members.
    pub fn empty() -> (flags: RuntimeGlobals)
        ensures
            flags.bits == 0,
    {
        RuntimeGlobals { bits: 0 }
    }

    /// The set whose members are the bits of `bits`.
    pub fn from_bits(bits: u64) -> (flags: RuntimeGlobals)
        ensures
            flags.bits == bits,
    {
        RuntimeGlobals { bits }
    }

    /// The members as a bit vector.
    pub fn bits(&self) -> (bits: u64)
        ensures
            bits == self.bits,
    {
        self.bits
    }

    /// The module-loading function.
    pub fn require() -> (flags: RuntimeGlobals)
        ensures
            flags.bits == REQUIRE,
    {
        RuntimeGlobals { bits: REQUIRE }
    }

    /// The table of chunk-loading handlers.
    pub fn ensure_chunk_handlers() -> (flags: RuntimeGlobals)
        ensures
            flags.bits == ENSURE_CHUNK_HANDLERS,
    {
        RuntimeGlobals { bits: ENSURE_CHUNK_HANDLERS }
    }

    /// The function through which a loaded chunk installs itself.
    pub fn external_install_chunk() -> (flags: RuntimeGlobals)
        ensures
            flags.bits == EXTERNAL_INSTALL_CHUNK,
    {
        RuntimeGlobals { bits: EXTERNAL_INSTALL_CHUNK }
    }

    /// The deferred-startup queue.
    pub fn on_chunks_loaded() -> (flags: RuntimeGlobals)
        ensures
            flags.bits == ON_CHUNKS_LOADED,
    {
        RuntimeGlobals { bits: ON_CHUNKS_LOADED }
    }

    /// The base URI of the running script.
    pub fn base_uri() -> (flags: RuntimeGlobals)
        ensures
            flags.bits == BASE_URI,
    {
        RuntimeGlobals { bits: BASE_URI }
    }

    /// The add-only module-factory table.
    pub fn module_factories_add_only() -> (flags: RuntimeGlobals)
        ensures
            flags.bits == MODULE_FACTORIES_ADD_ONLY,
    {
        RuntimeGlobals { bits: MODULE_FACTORIES_ADD_ONLY }
    }

    /// The own-property test helper.
    pub fn has_own_property() -> (flags: RuntimeGlobals)
        ensures
            flags.bits == HAS_OWN_PROPERTY,
    {
        RuntimeGlobals { bits: HAS_OWN_PROPERTY }
    }

    /// The function that maps a chunk id to its script file name.
    pub fn get_chunk_script_filename() -> (flags: RuntimeGlobals)
        ensures
            flags.bits == GET_CHUNK_SCRIPT_FILENAME,
    {
        RuntimeGlobals { bits: GET_CHUNK_SCRIPT_FILENAME }
    }

    /// The expression by which emitted code reaches the capability, for a set
    /// of one named capability; the empty text for every other set.
    pub open spec fn spec_name(self) -> Seq<char> {
        if self.bits == REQUIRE {
            "__webpack_require__"@
        } else if self.bits == ENSURE_CHUNK_HANDLERS {
            "__webpack_require__.f"@
        } else if self.bits == EXTERNAL_INSTALL_CHUNK {
            "__webpack_require__.C"@
        } else if self.bits == ON_CHUNKS_LOADED {
            "__webpack_require__.O"@
        } else if self.bits == BASE_URI {
            "__webpack_require__.b"@
        } else if self.bits == MODULE_FACTORIES_ADD_ONLY {
            "__webpack_require__.m (add only)"@
        } else if self.bits == HAS_OWN_PROPERTY {
            "__webpack_require__.o"@
        } else if self.bits == GET_CHUNK_SCRIPT_FILENAME {
            "__webpack_require__.u"@
        } else {
            ""@
        }
    }

    /// The expression by which emitted code reaches the capability.
    pub fn name(&self) -> (name: &'static str)
        ensures
            name@ == self.spec_name(),
    {
        if self.bits == REQUIRE {
            "__webpack_require__"
        } else if self.bits == ENSURE_CHUNK_HANDLERS {
            "__webpack_require__.f"
        } else if self.bits == EXTERNAL_INSTALL_CHUNK {
            "__webpack_require__.C"
        } else if self.bits == ON_CHUNKS_LOADED {
            "__webpack_require__.O"
        } else if self.bits == BASE_URI {
            "__webpack_require__.b"
        } else if self.bits == MODULE_FACTORIES_ADD_ONLY {
            "__webpack_require__.m (add only)"
        } else if self.bits == HAS_OWN_PROPERTY {
            "__webpack_require__.o"
        } else if self.bits == GET_CHUNK_SCRIPT_FILENAME {
            "__webpack_require__.u"
        } else {
            ""
        }
    }

    /// Whether the set has no member.
    pub fn is_empty(&self) -> (none: bool)
        ensures
            none == (self.bits == 0),
    {
        self.bits == 0
    }

    /// Membership test: whether every member of `other` is in `self`.
    pub fn contains(&self, other: RuntimeGlobals) -> (all: bool)
        ensures
            all == self.spec_contains(other),
    {
        self.bits & other.bits == other.bits
    }

    /// The union of the two sets.
    pub fn union(self, other: RuntimeGlobals) -> (both: RuntimeGlobals)
        ensures
            both == self.spec_union(other),
            self.subset_of(both),
            other.subset_of(both),
    {
        proof {
            lemma_union_upper_bound(self.bits, other.bits);
        }
        RuntimeGlobals { bits: self.bits | other.bits }
    }

    /// Adds the members of `other`; nothing leaves the set, and adding what
    /// is there already changes nothing.
    pub fn insert(&mut self, other: RuntimeGlobals)
        ensures
            *final(self) == old(self).spec_union(other),
            old(self).subset_of(*final(self)),
            final(self).spec_contains(other),
            old(self).spec_contains(other) ==> *final(self) == *old(self),
    {
        proof {
            lemma_union_upper_bound(self.bits, other.bits);
            if self.spec_contains(other) {
                lemma_union_absorbs(self.bits, other.bits);
            }
        }
        self.bits = self.bits | other.bits;
    }

    /// The members one by one, each as a set of its own, lowest bit first.
    pub fn iter(&self) -> (members: Vec<RuntimeGlobals>)
        ensures
            members@ == members_below(self.bits, 64),
    {
        let mut members: Vec<RuntimeGlobals> = Vec::new();
        let mut position: u32 = 0;
        while position < 64
            invariant
                position <= 64,
                members@ == members_below(self.bits, position as int),
            decreases 64 - position,
        {
            let mask: u64 = 1u64 << position;
            if self.bits & mask == mask {
                members.push(RuntimeGlobals { bits: mask });
            }
            position = position + 1;
        }
        members
    }
}

/// The single-bit members of `bits` at positions below `position`, lowest first.
pub open spec fn members_below(bits: u64, position: int) -> Seq<RuntimeGlobals>
    decreases position,
{
    if position <= 0 {
        Seq::empty()
    } else if bits_subset(bit_at(position - 1), bits) {
        members_below(bits, position - 1).push(RuntimeGlobals { bits: bit_at(position - 1) })
    } else {
        members_below(bits, position - 1)
    }
}

/// Both operands of a union are subsets of it.
pub proof fn lemma_union_upper_bound(a: u64, b: u64)
    ensures
        bits_subset(a, a | b),
        bits_subset(b, a | b),
{
    assert((a | b) & a == a) by (bit_vector);
    assert((a | b) & b == b) by (bit_vector);
}

/// Every set is a subset of itself.
pub proof fn lemma_subset_reflexive(a: u64)
    ensures
        bits_subset(a, a),
{
    assert(a & a == a) by (bit_vector);
}

/// The subset relation is transitive.
pub proof fn lemma_subset_transitive(a: u64, b: u64, c: u64)
    requires
        bits_subset(a, b),
        bits_subset(b, c),
    ensures
        bits_subset(a, c),
{
    assert(c & a == a) by (bit_vector)
        requires
            b & a == a,
            c & b == b,
    ;
}

/// Adding what is already a member changes nothing.
pub proof fn lemma_union_absorbs(a: u64, b: u64)
    requires
        bits_subset(b, a),
    ensures
        a | b == a,
{
    assert(a | b == a) by (bit_vector)
        requires
            a & b == b,
    ;
}

} // verus!
