//! The processors of the machine, and sets of them.

use vstd::prelude::*;

use crate::error::{ErrorCode, ErrorPhase, MonadError, MonadResult};

verus! {

pub const MAX_LOGICAL_CPUS: usize = 256;

/// One processor: its place in the dense order, and its name in its group.
#[derive(Debug, Clone, Copy, PartialEq, Eq)]
pub struct CpuId {
    pub dense_index: u16,
    pub group: u16,
    pub number: u8,
    pub reserved: [u8; 3],
}

impl Default for CpuId {
    fn default() -> (id: Self)
        ensures
            id.dense_index == 0,
            id.group == 0,
            id.number == 0,
            id.reserved@ =~= seq![0u8, 0u8, 0u8],
    {
        CpuId { dense_index: 0, group: 0, number: 0, reserved: [0;3] }
    }
}

/// The parts of a processor's name.
pub struct CpuName {
    pub dense_index: u16,
    pub group: u16,
    pub number: u8,
    pub reserved: Seq<u8>,
}

impl CpuId {
    /// The name as contracts see it.
    pub open spec fn name(self) -> CpuName {
        CpuName {
            dense_index: self.dense_index,
            group: self.group,
            number: self.number,
            reserved: self.reserved@,
        }
    }

    /// Whether the reserved bytes are zero.
    pub open spec fn clean(self) -> bool {
        self.reserved@ =~= seq![0u8, 0u8, 0u8]
    }

    /// Whether two names are one.
    pub fn same(&self, other: &CpuId) -> (same: bool)
        ensures
            same == (self.name() == other.name()),
    {
        let same: bool = self.dense_index == other.dense_index && self.group == other.group
            && self.number == other.number && self.reserved[0] == other.reserved[0]
            && self.reserved[1] == other.reserved[1] && self.reserved[2] == other.reserved[2];
        proof {
            if same {
                assert(self.reserved@ =~= other.reserved@);
            }
        }
        same
    }

    /// Whether code that was to run on this processor does.
    pub fn confirm(&self, group: u16, number: u8) -> (result: MonadResult<()>)
        ensures
            result == if group == self.group && number == self.number {
                Ok::<(), MonadError>(())
            } else {
                Err(
                    MonadError {
                        cpu_dense_index: self.dense_index,
                        ..MonadError::new(
                            ErrorPhase::Topology,
                            ErrorCode::TopologyChanged,
                            self.dense_index as u64,
                        )
                    },
                )
            },
    {
        if group != self.group || number != self.number {
            return Err(
                MonadError::new(
                    ErrorPhase::Topology,
                    ErrorCode::TopologyChanged,
                    self.dense_index as u64,
                ).on_cpu(self.dense_index),
            );
        }
        Ok(())
    }
}

/// Processors of one group.
#[derive(Debug, Clone, Copy, PartialEq, Eq, Structural)]
pub struct CpuSetWord {
    pub group: u16,
    pub reserved: u16,
    pub mask: u64,
}

impl Default for CpuSetWord {
    fn default() -> (word: Self)
        ensures
            word == (CpuSetWord { group: 0, reserved: 0, mask: 0 }),
    {
        CpuSetWord { group: 0, reserved: 0, mask: 0 }
    }
}

/// What is wrong with a set of processors.
#[derive(Debug, Clone, Copy, PartialEq, Eq, Structural)]
pub enum CpuSetErrorDetail {
    Empty,
    DuplicateGroup,
    AbsentGroup,
    InactiveBit,
    ReservedNonzero,
    CpuNotVirtualized,
    InvalidDenseIndex,
    DuplicateProcessor,
    InvalidProcessorNumber,
}

impl CpuSetErrorDetail {
    pub open spec fn spec_code(self) -> u64 {
        match self {
            CpuSetErrorDetail::Empty => 1,
            CpuSetErrorDetail::DuplicateGroup => 2,
            CpuSetErrorDetail::AbsentGroup => 3,
            CpuSetErrorDetail::InactiveBit => 4,
            CpuSetErrorDetail::ReservedNonzero => 5,
            CpuSetErrorDetail::CpuNotVirtualized => 6,
            CpuSetErrorDetail::InvalidDenseIndex => 7,
            CpuSetErrorDetail::DuplicateProcessor => 8,
            CpuSetErrorDetail::InvalidProcessorNumber => 9,
        }
    }

    #[verifier::when_used_as_spec(spec_code)]
    pub fn code(self) -> (code: u64)
        ensures
            code == self.spec_code(),
    {
        match self {
            CpuSetErrorDetail::Empty => 1,
            CpuSetErrorDetail::DuplicateGroup => 2,
            CpuSetErrorDetail::AbsentGroup => 3,
            CpuSetErrorDetail::InactiveBit => 4,
            CpuSetErrorDetail::ReservedNonzero => 5,
            CpuSetErrorDetail::CpuNotVirtualized => 6,
            CpuSetErrorDetail::InvalidDenseIndex => 7,
            CpuSetErrorDetail::DuplicateProcessor => 8,
            CpuSetErrorDetail::InvalidProcessorNumber => 9,
        }
    }
}

/// The error for a fault of a set.
pub open spec fn set_fault(detail: CpuSetErrorDetail) -> MonadError {
    MonadError::new(ErrorPhase::Topology, ErrorCode::InvalidCpuSet, detail.spec_code())
}

fn set_error(detail: CpuSetErrorDetail) -> (error: MonadError)
    ensures
        error == set_fault(detail),
{
    MonadError::new(ErrorPhase::Topology, ErrorCode::InvalidCpuSet, detail.code())
}

/// Whether a processor's group and number occur among the first `n`.
pub open spec fn named_before(ids: Seq<CpuId>, n: int, group: u16, number: u8) -> bool {
    exists|i: int|
        0 <= i < n && (#[trigger] ids[i]).group == group && ids[i].number == number
}

/// What is wrong with one processor of a list, if anything.
pub open spec fn id_fault(ids: Seq<CpuId>, i: int) -> Option<CpuSetErrorDetail> {
    if ids[i].number >= 64 {
        Some(CpuSetErrorDetail::InvalidProcessorNumber)
    } else if ids[i].dense_index != i || !ids[i].clean() {
        Some(CpuSetErrorDetail::InvalidDenseIndex)
    } else if named_before(ids, i, ids[i].group, ids[i].number) {
        Some(CpuSetErrorDetail::DuplicateProcessor)
    } else {
        None
    }
}

/// What is wrong with a list of processors, if anything.
pub open spec fn ids_fault(ids: Seq<CpuId>, error: MonadError) -> bool {
    if ids.len() > MAX_LOGICAL_CPUS {
        error == MonadError::new(
            ErrorPhase::Topology,
            ErrorCode::TooManyProcessors,
            ids.len() as u64,
        )
    } else if ids.len() == 0 {
        error == set_fault(CpuSetErrorDetail::Empty)
    } else {
        exists|i: int|
            {
                &&& 0 <= i < ids.len()
                &&& #[trigger] id_fault(ids, i) is Some
                &&& error == set_fault(id_fault(ids, i).unwrap())
                &&& forall|k: int| 0 <= k < i ==> #[trigger] id_fault(ids, k) is None
            }
    }
}

/// Processors in dense order, each once.
pub open spec fn ids_ok(ids: Seq<CpuId>) -> bool {
    &&& 0 < ids.len() <= MAX_LOGICAL_CPUS
    &&& forall|i: int| 0 <= i < ids.len() ==> #[trigger] id_fault(ids, i) is None
}

/// Whether two lists name the same processors.
pub open spec fn identical(left: Seq<CpuId>, right: Seq<CpuId>) -> bool {
    &&& left.len() == right.len()
    &&& forall|i: int| 0 <= i < left.len() ==> (#[trigger] left[i]).name() == right[i].name()
}

/// Whether a mask names a number.
pub open spec fn in_mask(mask: u64, number: u8) -> bool {
    mask & (1u64 << (number as u64)) != 0
}

pub proof fn lemma_in_mask(mask: u64, number: u8, other: u8)
    by (bit_vector)
    requires
        number < 64,
        other < 64,
    ensures
        ((mask | (1u64 << (number as u64))) & (1u64 << (other as u64)) != 0) == (mask & (1u64 << (
        other as u64)) != 0 || other == number),
        (0u64 & (1u64 << (other as u64)) != 0) == false,
        1u64 << (number as u64) != 0,
{
}

proof fn lemma_mask_difference(mask: u64, group: u64, number: u8)
    by (bit_vector)
    requires
        number < 64,
    ensures
        ((mask & !group) & (1u64 << (number as u64)) != 0) == (mask & (1u64 << (number as u64)) != 0
            && !(group & (1u64 << (number as u64)) != 0)),
        (mask & (1u64 << (number as u64)) != 0) == ((mask >> (number as u64)) % 2 == 1),
{
}

/// A mask names a number when the bit with that number is set.
pub proof fn law_mask_names_its_bits(mask: u64, number: u8)
    requires
        number < 64,
    ensures
        in_mask(mask, number) == ((mask as int / vstd::arithmetic::power2::pow2(number as nat) as int)
            % 2 == 1),
{
    lemma_mask_difference(mask, 0, number);
    vstd::bits::lemma_u64_shr_is_div(mask, number as u64);
}

proof fn lemma_mask_shift(mask: u64, k: u64)
    by (bit_vector)
    requires
        k < 63,
    ensures
        mask & (1u64 << k) == 0 && mask >> ((k + 1) as u64) == 0 ==> mask >> k == 0,
        mask & (1u64 << 63u64) == 0 ==> mask >> 63u64 == 0,
        mask >> 0u64 == mask,
{
}

/// A mask that names nothing from a number on is small.
proof fn lemma_mask_tail(mask: u64, k: u8)
    requires
        k < 64,
        forall|n: u8| k <= n < 64 ==> !#[trigger] in_mask(mask, n),
    ensures
        mask >> (k as u64) == 0,
    decreases 64 - k,
{
    if k == 63 {
        lemma_mask_shift(mask, 0);
        assert(!in_mask(mask, 63));
    } else {
        lemma_mask_tail(mask, (k + 1) as u8);
        lemma_mask_shift(mask, k as u64);
        assert(!in_mask(mask, k));
    }
}

/// A mask is zero where it names nothing.
proof fn lemma_mask_zero(mask: u64)
    ensures
        mask == 0 <==> forall|n: u8| n < 64 ==> !#[trigger] in_mask(mask, n),
{
    if forall|n: u8| n < 64 ==> !#[trigger] in_mask(mask, n) {
        lemma_mask_tail(mask, 0);
        lemma_mask_shift(mask, 0);
    }
    if mask == 0 {
        assert forall|n: u8| n < 64 implies !#[trigger] in_mask(mask, n) by {
            lemma_in_mask(0, 0, n);
        }
    }
}

/// Whether a word names a processor.
pub open spec fn word_names(word: CpuSetWord, id: CpuId) -> bool {
    word.group == id.group && in_mask(word.mask, id.number)
}

/// What is wrong with one word of a set, if anything.
pub open spec fn word_fault(
    ids: Seq<CpuId>,
    words: Seq<CpuSetWord>,
    virtualized: Seq<bool>,
    k: int,
    error: MonadError,
) -> bool {
    let word = words[k];
    if word.reserved != 0 {
        error == MonadError {
            operation_index: k as u32,
            ..set_fault(CpuSetErrorDetail::ReservedNonzero)
        }
    } else if exists|j: int| 0 <= j < k && (#[trigger] words[j]).group == word.group {
        error == MonadError {
            operation_index: k as u32,
            ..set_fault(CpuSetErrorDetail::DuplicateGroup)
        }
    } else if !group_present(ids, word.group) {
        error == MonadError {
            operation_index: k as u32,
            ..set_fault(CpuSetErrorDetail::AbsentGroup)
        }
    } else if inactive(ids, word) {
        error == MonadError {
            operation_index: k as u32,
            ..set_fault(CpuSetErrorDetail::InactiveBit)
        }
    } else {
        exists|i: int|
            {
                &&& 0 <= i < ids.len()
                &&& #[trigger] word_names(word, ids[i])
                &&& !virtualized[i]
                &&& forall|j: int| 0 <= j < i && #[trigger] word_names(word, ids[j]) ==> virtualized[j]
                &&& error == MonadError {
                    operation_index: k as u32,
                    cpu_dense_index: i as u16,
                    ..set_fault(CpuSetErrorDetail::CpuNotVirtualized)
                }
            }
    }
}

/// Whether a group has a processor.
pub open spec fn group_present(ids: Seq<CpuId>, group: u16) -> bool {
    exists|i: int| 0 <= i < ids.len() && (#[trigger] ids[i]).group == group
}

/// Whether a word names a number that its group does not have.
pub open spec fn inactive(ids: Seq<CpuId>, word: CpuSetWord) -> bool {
    exists|n: u8|
        n < 64 && #[trigger] in_mask(word.mask, n) && !named_before(
            ids,
            ids.len() as int,
            word.group,
            n,
        )
}

/// Whether a word has nothing wrong.
pub open spec fn word_ok(
    ids: Seq<CpuId>,
    words: Seq<CpuSetWord>,
    virtualized: Seq<bool>,
    k: int,
) -> bool {
    let word = words[k];
    &&& word.reserved == 0
    &&& forall|j: int| 0 <= j < k ==> (#[trigger] words[j]).group != word.group
    &&& group_present(ids, word.group)
    &&& !inactive(ids, word)
    &&& forall|i: int| 0 <= i < ids.len() && #[trigger] word_names(word, ids[i]) ==> virtualized[i]
}

/// Whether the first words of a set name a processor.
pub open spec fn chosen(words: Seq<CpuSetWord>, n: int, id: CpuId) -> bool {
    exists|k: int| 0 <= k < n && word_names(#[trigger] words[k], id)
}

/// What is wrong with a set of processors, if anything.
pub open spec fn set_refusal(
    ids: Seq<CpuId>,
    words: Seq<CpuSetWord>,
    virtualized: Seq<bool>,
    error: MonadError,
) -> bool {
    if words.len() == 0 {
        error == set_fault(CpuSetErrorDetail::Empty)
    } else if virtualized.len() < ids.len() {
        error == set_fault(CpuSetErrorDetail::CpuNotVirtualized)
    } else {
        ||| exists|k: int|
            {
                &&& 0 <= k < words.len()
                &&& #[trigger] word_fault(ids, words, virtualized, k, error)
                &&& forall|j: int|
                    0 <= j < k ==> #[trigger] word_ok(ids, words, virtualized, j)
            }
        ||| {
            &&& forall|j: int|
                0 <= j < words.len() ==> #[trigger] word_ok(ids, words, virtualized, j)
            &&& forall|i: int|
                0 <= i < ids.len() ==> !chosen(words, words.len() as int, #[trigger] ids[i])
            &&& error == set_fault(CpuSetErrorDetail::Empty)
        }
    }
}

/// How many of the first flags are set.
pub open spec fn flags_set(flags: Seq<bool>) -> nat
    decreases flags.len(),
{
    if flags.len() == 0 {
        0
    } else {
        flags_set(flags.drop_last()) + if flags.last() {
            1nat
        } else {
            0nat
        }
    }
}

proof fn lemma_flag(flags: Seq<bool>, i: int)
    requires
        0 <= i < flags.len(),
    ensures
        flags_set(flags.update(i, true)) == flags_set(flags) + if flags[i] {
            0int
        } else {
            1
        },
        flags_set(flags) <= flags.len(),
        !flags[i] ==> flags_set(flags) < flags.len(),
        flags[i] ==> flags_set(flags) > 0,
    decreases flags.len(),
{
    let after = flags.update(i, true);
    lemma_flags_bound(flags.drop_last());
    if i == flags.len() - 1 {
        assert(after.drop_last() =~= flags.drop_last());
    } else {
        lemma_flag(flags.drop_last(), i);
        assert(after.drop_last() =~= flags.drop_last().update(i, true));
    }
}

proof fn lemma_flags_bound(flags: Seq<bool>)
    ensures
        flags_set(flags) <= flags.len(),
    decreases flags.len(),
{
    if flags.len() > 0 {
        lemma_flags_bound(flags.drop_last());
    }
}

proof fn lemma_no_flag(flags: Seq<bool>)
    requires
        forall|i: int| 0 <= i < flags.len() ==> !#[trigger] flags[i],
    ensures
        flags_set(flags) == 0,
    decreases flags.len(),
{
    if flags.len() > 0 {
        lemma_no_flag(flags.drop_last());
    }
}

proof fn lemma_some_flag(flags: Seq<bool>)
    requires
        flags_set(flags) > 0,
    ensures
        exists|i: int| 0 <= i < flags.len() && #[trigger] flags[i],
{
    if forall|i: int| 0 <= i < flags.len() ==> !#[trigger] flags[i] {
        lemma_no_flag(flags);
    }
}

/// The processors of the machine, in dense order.
#[derive(Debug, PartialEq, Eq)]
pub struct CpuTopology {
    cpus: Vec<CpuId>,
}

impl Clone for CpuTopology {
    fn clone(&self) -> (copy: Self)
        ensures
            copy.view() == self.view(),
            ids_ok(copy.view()),
    {
        proof {
            use_type_invariant(self);
        }
        let mut cpus: Vec<CpuId> = Vec::new();
        let mut i: usize = 0;
        while i < self.cpus.len()
            invariant
                i <= self.cpus@.len(),
                cpus@ == self.cpus@.take(i as int),
            decreases self.cpus@.len() - i,
        {
            cpus.push(self.cpus[i]);
            i += 1;
            assert(cpus@ =~= self.cpus@.take(i as int));
        }
        assert(cpus@ =~= self.cpus@);
        CpuTopology { cpus }
    }
}

impl CpuTopology {
    #[verifier::type_invariant]
    pub closed spec fn in_order(self) -> bool {
        ids_ok(self.cpus@)
    }

    /// The processors.
    pub closed spec fn view(&self) -> Seq<CpuId> {
        self.cpus@
    }

    /// Accepts processors that are named by their place, each once.
    pub fn from_ids(ids: &[CpuId]) -> (result: MonadResult<Self>)
        ensures
            match result {
                Ok(topology) => ids_ok(ids@) && topology.view() == ids@,
                Err(error) => ids_fault(ids@, error),
            },
    {
        if ids.len() > MAX_LOGICAL_CPUS {
            return Err(
                MonadError::new(
                    ErrorPhase::Topology,
                    ErrorCode::TooManyProcessors,
                    ids.len() as u64,
                ),
            );
        }
        if ids.len() == 0 {
            return Err(set_error(CpuSetErrorDetail::Empty));
        }
        let mut cpus: Vec<CpuId> = Vec::new();
        let mut i: usize = 0;
        while i < ids.len()
            invariant
                i <= ids@.len() <= MAX_LOGICAL_CPUS,
                ids@.len() > 0,
                cpus@ == ids@.take(i as int),
                forall|k: int| 0 <= k < i ==> #[trigger] id_fault(ids@, k) is None,
            decreases ids@.len() - i,
        {
            let id = ids[i];
            if id.number >= 64 {
                assert(id_fault(ids@, i as int) is Some);
                return Err(set_error(CpuSetErrorDetail::InvalidProcessorNumber));
            }
            let clean: bool = id.reserved[0] == 0 && id.reserved[1] == 0 && id.reserved[2] == 0;
            assert(clean == ids@[i as int].clean());
            if id.dense_index as usize != i || !clean {
                assert(id_fault(ids@, i as int) is Some);
                return Err(set_error(CpuSetErrorDetail::InvalidDenseIndex));
            }
            let mut k: usize = 0;
            while k < i
                invariant
                    k <= i < ids@.len() <= MAX_LOGICAL_CPUS,
                    ids@.len() > 0,
                    id == ids@[i as int],
                    id.number < 64,
                    id.dense_index == i,
                    id.clean(),
                    forall|j: int|
                        0 <= j < k ==> (#[trigger] ids@[j]).group != id.group || ids@[j].number
                            != id.number,
                    forall|j: int| 0 <= j < i ==> #[trigger] id_fault(ids@, j) is None,
                decreases i - k,
            {
                if ids[k].group == id.group && ids[k].number == id.number {
                    assert(ids@[k as int].group == id.group);
                    assert(id_fault(ids@, i as int) == Some(CpuSetErrorDetail::DuplicateProcessor));
                    return Err(set_error(CpuSetErrorDetail::DuplicateProcessor));
                }
                k += 1;
            }
            assert(id_fault(ids@, i as int) is None);
            cpus.push(id);
            i += 1;
            assert(cpus@ =~= ids@.take(i as int));
        }
        assert(ids@.take(i as int) =~= ids@);
        Ok(CpuTopology { cpus })
    }

    /// How many processors there are.
    pub fn len(&self) -> (len: u16)
        ensures
            len == self.view().len(),
            0 < len <= MAX_LOGICAL_CPUS,
    {
        proof {
            use_type_invariant(self);
        }
        self.cpus.len() as u16
    }

    pub fn is_empty(&self) -> (empty: bool)
        ensures
            empty == (self.view().len() == 0),
    {
        self.cpus.len() == 0
    }

    pub fn ids(&self) -> (ids: &[CpuId])
        ensures
            ids@ == self.view(),
            ids_ok(ids@),
    {
        proof {
            use_type_invariant(self);
        }
        self.cpus.as_slice()
    }

    /// The processor at a place.
    pub fn get(&self, dense_index: u16) -> (found: Option<CpuId>)
        ensures
            found == if dense_index < self.view().len() {
                Some(self.view()[dense_index as int])
            } else {
                None
            },
    {
        if (dense_index as usize) < self.cpus.len() {
            Some(self.cpus[dense_index as usize])
        } else {
            None
        }
    }

    /// Whether two topologies name the same processors.
    pub fn same_identity(&self, other: &Self) -> (same: bool)
        ensures
            same == identical(self.view(), other.view()),
    {
        if self.cpus.len() != other.cpus.len() {
            return false;
        }
        let mut i: usize = 0;
        while i < self.cpus.len()
            invariant
                i <= self.cpus@.len(),
                self.cpus@.len() == other.cpus@.len(),
                forall|k: int|
                    0 <= k < i ==> (#[trigger] self.cpus@[k]).name() == other.cpus@[k].name(),
            decreases self.cpus@.len() - i,
        {
            if !self.cpus[i].same(&other.cpus[i]) {
                assert(self.view()[i as int].name() != other.view()[i as int].name());
                return false;
            }
            i += 1;
        }
        true
    }

    /// The numbers of a group, as a mask.
    fn group_mask(&self, group: u16) -> (mask: u64)
        ensures
            forall|n: u8|
                n < 64 ==> #[trigger] in_mask(mask, n) == named_before(
                    self.view(),
                    self.view().len() as int,
                    group,
                    n,
                ),
    {
        proof {
            use_type_invariant(self);
        }
        let mut mask: u64 = 0;
        let mut i: usize = 0;
        proof {
            assert forall|n: u8| n < 64 implies #[trigger] in_mask(mask, n) == named_before(
                self.view(),
                0,
                group,
                n,
            ) by {
                lemma_in_mask(0, 0, n);
            }
        }
        while i < self.cpus.len()
            invariant
                i <= self.cpus@.len(),
                ids_ok(self.cpus@),
                forall|n: u8|
                    n < 64 ==> #[trigger] in_mask(mask, n) == named_before(
                        self.view(),
                        i as int,
                        group,
                        n,
                    ),
            decreases self.cpus@.len() - i,
        {
            let cpu = self.cpus[i];
            let ghost before = mask;
            assert(id_fault(self.cpus@, i as int) is None);
            if cpu.group == group {
                mask = mask | (1u64 << (cpu.number as u64));
            }
            assert forall|n: u8| n < 64 implies #[trigger] in_mask(mask, n) == named_before(
                self.view(),
                i + 1,
                group,
                n,
            ) by {
                lemma_in_mask(before, cpu.number, n);
                assert(in_mask(before, n) == named_before(self.view(), i as int, group, n));
                if named_before(self.view(), i as int, group, n) {
                    let k = choose|k: int|
                        0 <= k < i && (#[trigger] self.view()[k]).group == group
                            && self.view()[k].number == n;
                    assert(self.view()[k].group == group);
                }
                if cpu.group == group && cpu.number == n {
                    assert(self.view()[i as int].group == group);
                }
            }
            i += 1;
        }
        mask
    }
}

/// Some of the processors.
pub struct CpuSelection {
    selected: Vec<bool>,
    count: u16,
}

impl CpuSelection {
    #[verifier::type_invariant]
    pub closed spec fn counted(self) -> bool {
        &&& self.selected@.len() == MAX_LOGICAL_CPUS
        &&& self.count == flags_set(self.selected@)
    }

    /// Whether each processor is selected.
    pub closed spec fn view(&self) -> Seq<bool> {
        self.selected@
    }

    /// How many processors are selected.
    pub fn len(&self) -> (len: u16)
        ensures
            len == flags_set(self.view()),
    {
        proof {
            use_type_invariant(self);
        }
        self.count
    }

    pub fn is_empty(&self) -> (empty: bool)
        ensures
            empty == (flags_set(self.view()) == 0),
    {
        proof {
            use_type_invariant(self);
        }
        self.count == 0
    }

    pub fn contains(&self, dense_index: u16) -> (selected: bool)
        ensures
            selected == (dense_index < self.view().len() && self.view()[dense_index as int]),
    {
        if (dense_index as usize) < self.selected.len() {
            self.selected[dense_index as usize]
        } else {
            false
        }
    }
}

impl CpuTopology {
    /// Checks one word of a set, up to whether its processors are virtualized.
    fn check_word(&self, words: &[CpuSetWord], index: usize) -> (result: MonadResult<()>)
        requires
            index < words@.len(),
        ensures
            ({
                let word = words@[index as int];
                match result {
                    Ok(_) => {
                        &&& word.reserved == 0
                        &&& forall|j: int|
                            0 <= j < index ==> (#[trigger] words@[j]).group != word.group
                        &&& group_present(self.view(), word.group)
                        &&& !inactive(self.view(), word)
                    },
                    Err(error) => {
                        &&& forall|virtualized: Seq<bool>| #[trigger]
                            word_fault(self.view(), words@, virtualized, index as int, error)
                    },
                }
            }),
    {
        let word = words[index];
        if word.reserved != 0 {
            return Err(
                set_error(CpuSetErrorDetail::ReservedNonzero).at_operation(index as u32),
            );
        }
        let mut prior: usize = 0;
        while prior < index
            invariant
                prior <= index < words@.len(),
                word == words@[index as int],
                word.reserved == 0,
                forall|j: int| 0 <= j < prior ==> (#[trigger] words@[j]).group != word.group,
            decreases index - prior,
        {
            if words[prior].group == word.group {
                assert(words@[prior as int].group == word.group);
                return Err(
                    set_error(CpuSetErrorDetail::DuplicateGroup).at_operation(index as u32),
                );
            }
            prior += 1;
        }
        let group_mask: u64 = self.group_mask(word.group);
        proof {
            use_type_invariant(self);
            lemma_mask_zero(group_mask);
            let ids = self.view();
            assert(group_mask == 0 <==> !group_present(ids, word.group)) by {
                if group_present(ids, word.group) {
                    let i = choose|i: int|
                        0 <= i < ids.len() && (#[trigger] ids[i]).group == word.group;
                    assert(id_fault(ids, i) is None);
                    assert(named_before(ids, ids.len() as int, word.group, ids[i].number));
                    assert(in_mask(group_mask, ids[i].number));
                }
                if group_mask != 0 {
                    let n = choose|n: u8| n < 64 && #[trigger] in_mask(group_mask, n);
                    assert(named_before(ids, ids.len() as int, word.group, n));
                    let i = choose|i: int|
                        0 <= i < ids.len() && (#[trigger] ids[i]).group == word.group
                            && ids[i].number == n;
                    assert(ids[i].group == word.group);
                }
            }
        }
        if group_mask == 0 {
            return Err(set_error(CpuSetErrorDetail::AbsentGroup).at_operation(index as u32));
        }
        proof {
            let ids = self.view();
            lemma_mask_zero(word.mask & !group_mask);
            assert forall|n: u8| n < 64 implies #[trigger] in_mask(word.mask & !group_mask, n) == (
            in_mask(word.mask, n) && !named_before(ids, ids.len() as int, word.group, n)) by {
                lemma_mask_difference(word.mask, group_mask, n);
                assert(in_mask(group_mask, n) == named_before(
                    ids,
                    ids.len() as int,
                    word.group,
                    n,
                ));
            }
            if inactive(ids, word) {
                let n = choose|n: u8|
                    n < 64 && #[trigger] in_mask(word.mask, n) && !named_before(
                        ids,
                        ids.len() as int,
                        word.group,
                        n,
                    );
                assert(in_mask(word.mask & !group_mask, n));
            }
            if word.mask & !group_mask != 0 {
                let n = choose|n: u8| n < 64 && #[trigger] in_mask(word.mask & !group_mask, n);
                assert(in_mask(word.mask, n));
            }
        }
        if word.mask & !group_mask != 0 {
            return Err(set_error(CpuSetErrorDetail::InactiveBit).at_operation(index as u32));
        }
        Ok(())
    }

    /// Accepts a set of processors that are all there and all virtualized.
    pub fn validate_cpu_set(&self, words: &[CpuSetWord], virtualized: &[bool]) -> (result:
        MonadResult<CpuSelection>)
        ensures
            match result {
                Ok(selection) => {
                    &&& words@.len() > 0
                    &&& virtualized@.len() >= self.view().len()
                    &&& forall|k: int|
                        0 <= k < words@.len() ==> #[trigger] word_ok(
                            self.view(),
                            words@,
                            virtualized@,
                            k,
                        )
                    &&& selection.view().len() == MAX_LOGICAL_CPUS
                    &&& forall|i: int|
                        0 <= i < self.view().len() ==> #[trigger] selection.view()[i] == chosen(
                            words@,
                            words@.len() as int,
                            self.view()[i],
                        )
                    &&& forall|i: int|
                        self.view().len() <= i < MAX_LOGICAL_CPUS
                            ==> !#[trigger] selection.view()[i]
                    &&& flags_set(selection.view()) > 0
                },
                Err(error) => set_refusal(self.view(), words@, virtualized@, error),
            },
    {
        proof {
            use_type_invariant(self);
        }
        if words.len() == 0 {
            return Err(set_error(CpuSetErrorDetail::Empty));
        }
        if virtualized.len() < self.cpus.len() {
            return Err(set_error(CpuSetErrorDetail::CpuNotVirtualized));
        }
        let ghost ids = self.view();
        let mut selected: Vec<bool> = Vec::new();
        while selected.len() < MAX_LOGICAL_CPUS
            invariant
                selected@.len() <= MAX_LOGICAL_CPUS,
                forall|i: int| 0 <= i < selected@.len() ==> !#[trigger] selected@[i],
            decreases MAX_LOGICAL_CPUS - selected@.len(),
        {
            selected.push(false);
        }
        let mut count: u16 = 0;
        proof {
            lemma_no_flag(selected@);
        }
        let mut index: usize = 0;
        while index < words.len()
            invariant
                index <= words@.len(),
                words@.len() > 0,
                ids == self.view(),
                ids_ok(ids),
                virtualized@.len() >= ids.len(),
                selected@.len() == MAX_LOGICAL_CPUS,
                count == flags_set(selected@),
                forall|k: int|
                    0 <= k < index ==> #[trigger] word_ok(ids, words@, virtualized@, k),
                forall|i: int|
                    0 <= i < ids.len() ==> #[trigger] selected@[i] == chosen(
                        words@,
                        index as int,
                        ids[i],
                    ),
                forall|i: int| ids.len() <= i < MAX_LOGICAL_CPUS ==> !#[trigger] selected@[i],
            decreases words@.len() - index,
        {
            match self.check_word(words, index) {
                Ok(_) => {},
                Err(error) => {
                    assert(word_fault(ids, words@, virtualized@, index as int, error));
                    return Err(error);
                },
            }
            let word = words[index];
            let mut i: usize = 0;
            while i < self.cpus.len()
                invariant
                    i <= ids.len(),
                    index < words@.len(),
                    word == words@[index as int],
                    ids == self.view(),
                    ids_ok(ids),
                    virtualized@.len() >= ids.len(),
                    selected@.len() == MAX_LOGICAL_CPUS,
                    count == flags_set(selected@),
                    word.reserved == 0,
                    forall|j: int| 0 <= j < index ==> (#[trigger] words@[j]).group != word.group,
                    group_present(ids, word.group),
                    !inactive(ids, word),
                    forall|k: int|
                        0 <= k < index ==> #[trigger] word_ok(ids, words@, virtualized@, k),
                    forall|j: int|
                        0 <= j < i && #[trigger] word_names(word, ids[j]) ==> virtualized@[j],
                    forall|j: int|
                        0 <= j < ids.len() ==> #[trigger] selected@[j] == (chosen(
                            words@,
                            index as int,
                            ids[j],
                        ) || (j < i && word_names(word, ids[j]))),
                    forall|j: int| ids.len() <= j < MAX_LOGICAL_CPUS ==> !#[trigger] selected@[j],
                decreases ids.len() - i,
            {
                let cpu = self.cpus[i];
                assert(id_fault(ids, i as int) is None);
                let named: bool = cpu.group == word.group && word.mask & (1u64 << (
                cpu.number as u64)) != 0;
                assert(named == word_names(word, ids[i as int]));
                if named {
                    if !virtualized[i] {
                        let error = set_error(CpuSetErrorDetail::CpuNotVirtualized).on_cpu(
                            cpu.dense_index,
                        ).at_operation(index as u32);
                        assert(word_names(word, ids[i as int]));
                        assert(word_fault(ids, words@, virtualized@, index as int, error));
                        return Err(error);
                    }
                    proof {
                        lemma_flag(selected@, i as int);
                    }
                    if !selected[i] {
                        let ghost before = selected@;
                        selected.set(i, true);
                        count = count + 1;
                        assert(selected@ == before.update(i as int, true));
                    }
                }
                i += 1;
            }
            proof {
                assert forall|j: int| 0 <= j < ids.len() implies #[trigger] selected@[j] == chosen(
                    words@,
                    index + 1,
                    ids[j],
                ) by {
                    if chosen(words@, index as int, ids[j]) {
                        let k = choose|k: int|
                            0 <= k < index && word_names(#[trigger] words@[k], ids[j]);
                        assert(word_names(words@[k], ids[j]));
                    }
                    if word_names(word, ids[j]) {
                        assert(word_names(words@[index as int], ids[j]));
                    }
                }
                assert(word_ok(ids, words@, virtualized@, index as int));
            }
            index += 1;
        }
        if count == 0 {
            proof {
                assert forall|i: int| 0 <= i < ids.len() implies !chosen(
                    words@,
                    words@.len() as int,
                    #[trigger] ids[i],
                ) by {
                    if selected@[i] {
                        lemma_flag(selected@, i);
                    }
                }
            }
            return Err(set_error(CpuSetErrorDetail::Empty));
        }
        Ok(CpuSelection { selected, count })
    }
}

/// A processor as the operating system names it.
#[derive(Debug, Clone, Copy, PartialEq, Eq, Structural)]
pub struct NativeProcessor {
    pub group: u16,
    pub number: u8,
}

/// How many of the reported processors are named, up to the first that is not.
pub open spec fn named_up_to(report: Seq<Option<NativeProcessor>>, from: nat) -> nat
    decreases report.len() - from,
{
    if from >= report.len() || report[from as int] is None {
        from
    } else {
        named_up_to(report, from + 1)
    }
}

/// The reported processors, each at its place.
pub open spec fn reported_ids(report: Seq<Option<NativeProcessor>>, ids: Seq<CpuId>) -> bool {
    &&& ids.len() == report.len()
    &&& forall|k: int|
        0 <= k < ids.len() ==> {
            let id = #[trigger] ids[k];
            &&& id.dense_index == k
            &&& report[k] == Some(NativeProcessor { group: id.group, number: id.number })
            &&& id.clean()
        }
}

/// Whether the operating system's count of processors can be taken up.
pub fn admit_processor_count(count: u32) -> (result: MonadResult<()>)
    ensures
        result == if count == 0 {
            Err::<(), MonadError>(set_fault(CpuSetErrorDetail::Empty))
        } else if count > MAX_LOGICAL_CPUS {
            Err(
                MonadError::new(
                    ErrorPhase::Topology,
                    ErrorCode::TooManyProcessors,
                    count as u64,
                ),
            )
        } else {
            Ok(())
        },
{
    if count == 0 {
        return Err(set_error(CpuSetErrorDetail::Empty));
    }
    if count as usize > MAX_LOGICAL_CPUS {
        return Err(
            MonadError::new(ErrorPhase::Topology, ErrorCode::TooManyProcessors, count as u64),
        );
    }
    Ok(())
}

/// The processors that the operating system names, in its order. One that it
/// counts and does not name says that the machine has changed.
pub fn snapshot_active_processors(report: &[Option<NativeProcessor>]) -> (result: MonadResult<
    CpuTopology,
>)
    requires
        0 < report@.len() <= MAX_LOGICAL_CPUS,
    ensures
        ({
            let named = named_up_to(report@, 0);
            if named < report@.len() {
                result == Err::<CpuTopology, MonadError>(
                    MonadError::new(ErrorPhase::Topology, ErrorCode::TopologyChanged, named as u64),
                )
            } else {
                exists|ids: Seq<CpuId>|
                    {
                        &&& #[trigger] reported_ids(report@, ids)
                        &&& match result {
                            Ok(topology) => ids_ok(ids) && topology.view() == ids,
                            Err(error) => ids_fault(ids, error),
                        }
                    }
            }
        }),
{
    let mut ids: Vec<CpuId> = Vec::new();
    let mut index: usize = 0;
    while index < report.len()
        invariant
            index <= report@.len() <= MAX_LOGICAL_CPUS,
            reported_ids(report@.take(index as int), ids@),
            named_up_to(report@, 0) == named_up_to(report@, index as nat),
        decreases report@.len() - index,
    {
        match report[index] {
            None => {
                return Err(
                    MonadError::new(
                        ErrorPhase::Topology,
                        ErrorCode::TopologyChanged,
                        index as u64,
                    ),
                );
            },
            Some(native) => {
                let ghost before = ids@;
                let id = CpuId {
                    dense_index: index as u16,
                    group: native.group,
                    number: native.number,
                    reserved: [0;3],
                };
                ids.push(id);
                assert(id.clean());
                assert forall|k: int| 0 <= k < ids@.len() implies {
                    let id = #[trigger] ids@[k];
                    &&& id.dense_index == k
                    &&& report@.take(index + 1)[k] == Some(
                        NativeProcessor { group: id.group, number: id.number },
                    )
                    &&& id.clean()
                } by {
                    if k < index {
                        assert(ids@[k] == before[k]);
                        assert(report@.take(index as int)[k] == report@[k]);
                    }
                }
            },
        }
        index = index + 1;
    }
    assert(report@.take(index as int) =~= report@);
    let result = CpuTopology::from_ids(ids.as_slice());
    assert(reported_ids(report@, ids@));
    result
}

} // verus!
