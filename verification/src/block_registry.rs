//! The block-state table: for each block identifier, its listed states and
//! which of them is the default. Loaded from the generated block report at
//! the edge of the system and handed in as plain values.

use vstd::prelude::*;

verus! {

/// Metadata of one block definition.
#[derive(Debug, Clone)]
pub struct BlockStateDefinition {
    pub kind: String,
}

/// One concrete block state: its numeric id, whether it is the block's
/// default, and its property assignment.
#[derive(Debug, Clone)]
pub struct BlockState {
    pub default: Option<bool>,
    pub id: i32,
    pub properties: Vec<(String, String)>,
}

/// Spec-level mirror of [`BlockState`]: only what lookups read.
pub struct BlockStateView {
    pub default: Option<bool>,
    pub id: i32,
}

impl View for BlockState {
    type V = BlockStateView;

    open spec fn view(&self) -> BlockStateView {
        BlockStateView { default: self.default, id: self.id }
    }
}

/// All states of one block, with the property ranges it offers.
#[derive(Debug, Clone)]
pub struct BlockStates {
    pub definition: BlockStateDefinition,
    pub properties: Vec<(String, Vec<String>)>,
    pub states: Vec<BlockState>,
}

impl View for BlockStates {
    type V = Seq<BlockStateView>;

    open spec fn view(&self) -> Seq<BlockStateView> {
        self.states@.map_values(|s: BlockState| s@)
    }
}

/// The id of the first state marked as the default, if any.
pub open spec fn spec_first_default(states: Seq<BlockStateView>) -> Option<i32>
    decreases states.len(),
{
    if states.len() == 0 {
        None
    } else if states[0].default == Some(true) {
        Some(states[0].id)
    } else {
        spec_first_default(states.drop_first())
    }
}

/// The default state id of the first block named `id` that has one.
pub open spec fn spec_default_state(blocks: Seq<(Seq<char>, Seq<BlockStateView>)>, id: Seq<char>) -> Option<i32>
    decreases blocks.len(),
{
    if blocks.len() == 0 {
        None
    } else if blocks[0].0 == id && spec_first_default(blocks[0].1) is Some {
        spec_first_default(blocks[0].1)
    } else {
        spec_default_state(blocks.drop_first(), id)
    }
}

/// The table from block identifier to its states.
#[derive(Debug, Clone)]
pub struct BlockRegistry {
    pub blocks: Vec<(String, BlockStates)>,
}

impl View for BlockRegistry {
    type V = Seq<(Seq<char>, Seq<BlockStateView>)>;

    open spec fn view(&self) -> Seq<(Seq<char>, Seq<BlockStateView>)> {
        self.blocks@.map_values(|b: (String, BlockStates)| (b.0@, b.1@))
    }
}

impl BlockRegistry {
    /// An empty table; the loader fills it one block at a time.
    pub fn new() -> (r: Self)
        ensures
            r@ == Seq::<(Seq<char>, Seq<BlockStateView>)>::empty(),
    {
        let r = BlockRegistry { blocks: Vec::new() };
        proof {
            assert(r@ =~= Seq::<(Seq<char>, Seq<BlockStateView>)>::empty());
        }
        r
    }

    /// Record one block and its states.
    pub fn add_block(&mut self, name: String, states: BlockStates)
        ensures
            final(self)@ == old(self)@.push((name@, states@)),
    {
        self.blocks.push((name, states));
        proof {
            assert(self@ =~= old(self)@.push(
                (self.blocks@.last().0@, self.blocks@.last().1@),
            ));
        }
    }

    /// The default state id of the named block, scanning blocks in table
    /// order, exactly as [`spec_default_state`] says.
    pub fn get_blockstate_of_block(&self, block: &String) -> (r: Option<i32>)
        ensures
            r == spec_default_state(self@, block@),
    {
        let n = self.blocks.len();
        let mut i: usize = 0;
        proof {
            assert(self@.skip(0) =~= self@);
        }
        while i < n
            invariant
                i <= n == self.blocks@.len(),
                spec_default_state(self@, block@) == spec_default_state(
                    self@.skip(i as int),
                    block@,
                ),
            decreases n - i,
        {
            proof {
                assert(self@.skip(i as int)[0] == (self.blocks@[i as int].0@, self.blocks@[
                i as int].1@));
                assert(self@.skip(i as int).drop_first() =~= self@.skip(i + 1));
            }
            if self.blocks[i].0.eq(block) {
                match Self::first_default(&self.blocks[i].1.states) {
                    Some(id) => { return Some(id); },
                    None => {},
                }
            }
            i = i + 1;
        }
        None
    }

    /// The first state marked default, exactly as [`spec_first_default`] says.
    fn first_default(states: &Vec<BlockState>) -> (r: Option<i32>)
        ensures
            r == spec_first_default(states@.map_values(|s: BlockState| s@)),
    {
        let n = states.len();
        let mut i: usize = 0;
        proof {
            assert(states@.map_values(|s: BlockState| s@).skip(0) =~= states@.map_values(
                |s: BlockState| s@,
            ));
        }
        while i < n
            invariant
                i <= n == states@.len(),
                spec_first_default(states@.map_values(|s: BlockState| s@)) == spec_first_default(
                    states@.map_values(|s: BlockState| s@).skip(i as int),
                ),
            decreases n - i,
        {
            proof {
                assert(states@.map_values(|s: BlockState| s@).skip(i as int).drop_first()
                    =~= states@.map_values(|s: BlockState| s@).skip(i + 1));
            }
            match states[i].default {
                Some(d) => {
                    if d {
                        return Some(states[i].id);
                    }
                },
                None => {},
            }
            i = i + 1;
        }
        None
    }
}

} // verus!
