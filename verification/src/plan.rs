//! Dispatch plans: an ordered sequence of compute passes, each with its
//! workgroup counts and the uniform payload it runs with.

use vstd::prelude::*;

verus! {

/// How many workgroups a pass runs along each of the three axes.
#[derive(Clone, Copy, Debug, PartialEq, Eq, Structural)]
pub struct Workgroups {
    pub x: u32,
    pub y: u32,
    pub z: u32,
}

impl Workgroups {
    /// The number of workgroups the pass runs in all.
    pub open spec fn total(self) -> nat {
        (self.x * self.y * self.z) as nat
    }

    /// The number of workgroups the pass runs in all.
    pub fn count(&self) -> (count: u128)
        ensures
            count == self.total(),
    {
        proof {
            lemma_product_bound(self.x as nat, self.y as nat, self.z as nat);
        }
        let xy: u64 = (self.x as u64) * (self.y as u64);
        (xy as u128) * (self.z as u128)
    }
}

/// One compute pass: its workgroup counts and, where the kernel takes
/// parameters, the bytes of the uniform buffer that is created for it.
#[derive(Clone, Debug, PartialEq, Eq)]
pub struct Pass {
    pub workgroups: Workgroups,
    pub payload: Option<Vec<u8>>,
}

/// The mathematical content of a [`Pass`].
pub struct PassModel {
    pub workgroups: Workgroups,
    pub payload: Option<Seq<u8>>,
}

impl View for Pass {
    type V = PassModel;

    open spec fn view(&self) -> PassModel {
        PassModel {
            workgroups: self.workgroups,
            payload: match self.payload {
                Some(bytes) => Some(bytes@),
                None => None,
            },
        }
    }
}

/// The work of the first `upto` passes taken together.
pub open spec fn work_of(passes: Seq<PassModel>, upto: int) -> nat
    decreases upto,
{
    if upto <= 0 {
        0
    } else {
        work_of(passes, upto - 1) + passes[upto - 1].workgroups.total()
    }
}

/// The work of all passes taken together.
pub open spec fn total_work(passes: Seq<PassModel>) -> nat {
    work_of(passes, passes.len() as int)
}

/// Some pass runs no workgroup at all.
pub open spec fn has_idle_pass(passes: Seq<PassModel>) -> bool {
    exists|i: int| 0 <= i < passes.len() && (#[trigger] passes[i]).workgroups.total() == 0
}

/// The four bytes of `value`, least significant first.
pub open spec fn le_bytes(value: u32) -> Seq<u8> {
    seq![
        (value % 256) as u8,
        ((value / 256) % 256) as u8,
        ((value / 65536) % 256) as u8,
        (value / 16777216) as u8,
    ]
}

/// The four bytes of `value`, most significant first.
pub open spec fn be_bytes(value: u32) -> Seq<u8> {
    seq![
        (value / 16777216) as u8,
        ((value / 65536) % 256) as u8,
        ((value / 256) % 256) as u8,
        (value % 256) as u8,
    ]
}

/// The value that four bytes hold when the least significant comes first.
pub open spec fn le_word(bytes: Seq<u8>) -> nat {
    (bytes[0] + 256 * bytes[1] + 65536 * bytes[2] + 16777216 * bytes[3]) as nat
}

/// The value that four bytes hold when the most significant comes first.
pub open spec fn be_word(bytes: Seq<u8>) -> nat {
    (bytes[3] + 256 * bytes[2] + 65536 * bytes[1] + 16777216 * bytes[0]) as nat
}

/// `bytes` is `value` as the host lays it out in memory: in one of the two
/// byte orders.
pub open spec fn encodes_word(bytes: Seq<u8>, value: u32) -> bool {
    bytes == le_bytes(value) || bytes == be_bytes(value)
}

/// Calls `bytemuck::bytes_of` on a `u32` and copies the slice it returns:
/// the four bytes of the value's representation in memory. Which byte order
/// that is depends on the target, so the contract allows both.
#[verifier::external_body]
fn native_bytes(value: u32) -> (bytes: Vec<u8>)
    ensures
        encodes_word(bytes@, value),
{
    bytemuck::bytes_of(&value).to_vec()
}

/// The passes of a plan that runs one pass per column of a grid: pass `i`
/// covers the `height` cells of column `i` and is told its column by its
/// payload.
pub open spec fn is_column_plan(passes: Seq<PassModel>, width: u32, height: u32) -> bool {
    &&& passes.len() == width
    &&& forall|i: int|
        0 <= i < passes.len() ==> {
            &&& (#[trigger] passes[i]).workgroups == (Workgroups { x: 1, y: height, z: 1 })
            &&& passes[i].payload is Some
            &&& encodes_word(passes[i].payload->Some_0, i as u32)
        }
}

/// The passes of a plan that covers `count` elements in a single pass without
/// parameters.
pub open spec fn is_single_pass_plan(passes: Seq<PassModel>, count: u32) -> bool {
    passes == seq![PassModel { workgroups: Workgroups { x: count, y: 1, z: 1 }, payload: None }]
}

/// An ordered sequence of passes.
#[derive(Clone, Debug, PartialEq, Eq)]
pub struct DispatchPlan {
    passes: Vec<Pass>,
}

impl View for DispatchPlan {
    type V = Seq<PassModel>;

    closed spec fn view(&self) -> Seq<PassModel> {
        Seq::new(self.passes@.len(), |i: int| self.passes@[i]@)
    }
}

impl DispatchPlan {
    /// A plan without passes.
    pub fn new() -> (plan: DispatchPlan)
        ensures
            plan@ == Seq::<PassModel>::empty(),
    {
        DispatchPlan { passes: Vec::new() }
    }

    /// Appends `pass` to the plan.
    pub fn push(&mut self, pass: Pass)
        ensures
            final(self)@ == old(self)@.push(pass@),
    {
        self.passes.push(pass);
    }

    /// One pass per column of a `width` by `height` grid, in column order.
    pub fn per_column(width: u32, height: u32) -> (plan: DispatchPlan)
        ensures
            is_column_plan(plan@, width, height),
    {
        let mut plan = DispatchPlan::new();
        let mut column: u32 = 0;
        while column < width
            invariant
                column <= width,
                is_column_plan(plan@, column, height),
            decreases width - column,
        {
            let pass = Pass {
                workgroups: Workgroups { x: 1, y: height, z: 1 },
                payload: Some(native_bytes(column)),
            };
            plan.push(pass);
            column += 1;
        }
        plan
    }

    /// A single pass over `count` elements.
    pub fn single_pass(count: u32) -> (plan: DispatchPlan)
        ensures
            is_single_pass_plan(plan@, count),
    {
        let mut plan = DispatchPlan::new();
        plan.push(Pass { workgroups: Workgroups { x: count, y: 1, z: 1 }, payload: None });
        plan
    }

    /// The number of passes.
    pub fn len(&self) -> (len: usize)
        ensures
            len == self@.len(),
    {
        self.passes.len()
    }

    /// The pass at `index`, counted from zero in submission order.
    pub fn pass(&self, index: usize) -> (pass: Option<&Pass>)
        ensures
            index < self@.len() ==> pass is Some && pass->Some_0@ == self@[index as int],
            index >= self@.len() ==> pass is None,
    {
        if index < self.passes.len() {
            Some(&self.passes[index])
        } else {
            None
        }
    }

    /// The work of all passes taken together, or `None` where it does not fit
    /// in 128 bits.
    pub fn total_work(&self) -> (total: Option<u128>)
        ensures
            total_work(self@) <= u128::MAX ==> total == Some(total_work(self@) as u128),
            total_work(self@) > u128::MAX ==> total is None,
    {
        let mut sum: u128 = 0;
        let mut i: usize = 0;
        while i < self.passes.len()
            invariant
                i <= self.passes@.len(),
                self@.len() == self.passes@.len(),
                sum == work_of(self@, i as int),
            decreases self.passes@.len() - i,
        {
            let work = self.passes[i].workgroups.count();
            match sum.checked_add(work) {
                Some(next) => {
                    sum = next;
                },
                None => {
                    proof {
                        lemma_work_grows(self@, i as int + 1, self@.len() as int);
                    }
                    return None;
                },
            }
            i += 1;
        }
        Some(sum)
    }

    /// Whether the plan covers an index space of `elements` elements exactly:
    /// neither fewer nor more workgroups than elements.
    pub fn covers(&self, elements: u64) -> (exact: bool)
        ensures
            exact == (total_work(self@) == elements),
    {
        match self.total_work() {
            Some(total) => total == elements as u128,
            None => false,
        }
    }

    /// Whether some pass of the plan runs no workgroup at all. Such a pass
    /// is dispatched like any other; a plan that holds one was planned wrongly.
    pub fn has_idle_pass(&self) -> (idle: bool)
        ensures
            idle == has_idle_pass(self@),
    {
        let mut i: usize = 0;
        while i < self.passes.len()
            invariant
                i <= self.passes@.len(),
                self@.len() == self.passes@.len(),
                forall|k: int| 0 <= k < i ==> (#[trigger] self@[k]).workgroups.total() != 0,
            decreases self.passes@.len() - i,
        {
            if self.passes[i].workgroups.count() == 0 {
                assert(self@[i as int].workgroups.total() == 0);
                return true;
            }
            i += 1;
        }
        false
    }
}

/// Three 32-bit factors multiply to less than 2^96.
pub proof fn lemma_product_bound(x: nat, y: nat, z: nat)
    requires
        x <= u32::MAX,
        y <= u32::MAX,
        z <= u32::MAX,
    ensures
        x * y <= u64::MAX,
        x * y * z <= u128::MAX,
{
    assert(x * y <= u32::MAX * u32::MAX) by (nonlinear_arith)
        requires
            x <= u32::MAX,
            y <= u32::MAX,
    ;
    assert((x * y) * z <= (u32::MAX * u32::MAX) * u32::MAX) by (nonlinear_arith)
        requires
            x * y <= u32::MAX * u32::MAX,
            z <= u32::MAX,
    ;
}

/// The work of a longer prefix of a plan is no less than that of a shorter.
pub proof fn lemma_work_grows(passes: Seq<PassModel>, shorter: int, longer: int)
    requires
        shorter <= longer,
    ensures
        work_of(passes, shorter) <= work_of(passes, longer),
    decreases longer - shorter,
{
    if shorter < longer {
        lemma_work_grows(passes, shorter, longer - 1);
    }
}

/// A plan with one pass per column of a grid covers the grid exactly.
pub proof fn lemma_column_plan_covers(passes: Seq<PassModel>, width: u32, height: u32)
    requires
        is_column_plan(passes, width, height),
    ensures
        total_work(passes) == width * height,
        height > 0 ==> !has_idle_pass(passes),
{
    lemma_column_work(passes, width, height, width as int);
}

/// The first `upto` columns of a column plan cover `upto * height` cells.
proof fn lemma_column_work(passes: Seq<PassModel>, width: u32, height: u32, upto: int)
    requires
        is_column_plan(passes, width, height),
        0 <= upto <= width,
    ensures
        work_of(passes, upto) == upto * height,
    decreases upto,
{
    if upto > 0 {
        lemma_column_work(passes, width, height, upto - 1);
        assert(passes[upto - 1].workgroups.total() == height) by {
            assert(1 * height * 1 == height) by (nonlinear_arith);
        }
        assert((upto - 1) * height + height == upto * height) by (nonlinear_arith);
    } else {
        assert(upto * height == 0) by (nonlinear_arith)
            requires
                upto == 0,
        ;
    }
}

/// A single-pass plan over `count` elements covers them exactly.
pub proof fn lemma_single_pass_covers(passes: Seq<PassModel>, count: u32)
    requires
        is_single_pass_plan(passes, count),
    ensures
        total_work(passes) == count,
{
    assert(passes[0].workgroups.total() == count) by {
        assert(count * 1 * 1 == count) by (nonlinear_arith);
    }
    assert(work_of(passes, 0) == 0);
}

/// In a plan with one pass per column, the payload of every pass is four
/// bytes that read back as the number of its column in the byte order they
/// were written in.
pub proof fn lemma_column_payload_names_its_column(
    passes: Seq<PassModel>,
    width: u32,
    height: u32,
    column: int,
)
    requires
        is_column_plan(passes, width, height),
        0 <= column < width,
    ensures
        passes[column].payload is Some,
        passes[column].payload->Some_0.len() == 4,
        passes[column].payload->Some_0 == le_bytes(column as u32) ==> le_word(
            passes[column].payload->Some_0,
        ) == column,
        passes[column].payload->Some_0 == be_bytes(column as u32) ==> be_word(
            passes[column].payload->Some_0,
        ) == column,
        le_word(passes[column].payload->Some_0) == column || be_word(
            passes[column].payload->Some_0,
        ) == column,
{
    lemma_word_round_trip(column as u32);
}

/// Either byte order reads a word back from its own encoding.
pub proof fn lemma_word_round_trip(value: u32)
    ensures
        le_word(le_bytes(value)) == value,
        be_word(be_bytes(value)) == value,
{
}

} // verus!
