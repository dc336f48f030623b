//! The sub-routine that reads a positive value of at most 99 bits from memory:
//! the address names an id, and the id names eleven nine-bit limbs.
use vstd::prelude::*;

use crate::field::M31;
use crate::relation::{
    EntryView, EvalContext, MemoryAddressToId, MemoryIdToBig, RelationEntry, RelationKind,
};

verus! {

/// The read-positive-value sub-routine; it has no columns of its own.
#[derive(Clone, Copy, Debug)]
pub struct ReadPositiveNumBits99 {}

/// The two entries that one read emits with multiplicity `m`: `(address, id)`
/// to the address-to-id relation and `(id, limbs...)` to the id-to-limbs
/// relation.
pub open spec fn read_entries_with(m: int, address: M31, id: M31, limbs: Seq<M31>) -> Seq<EntryView> {
    seq![
        EntryView { relation: RelationKind::MemoryAddressToId, multiplicity: m, args: seq![address, id] },
        EntryView { relation: RelationKind::MemoryIdToBig, multiplicity: m, args: seq![id] + limbs },
    ]
}

/// The two entries of one read, both with multiplicity one.
pub open spec fn read_entries(address: M31, id: M31, limbs: Seq<M31>) -> Seq<EntryView> {
    read_entries_with(1, address, id, limbs)
}

impl ReadPositiveNumBits99 {
    /// Adds the two relation entries of one read to `eval`; the sub-routine
    /// hands no values back.
    #[allow(clippy::too_many_arguments)]
    #[allow(unused_variables)]
    pub fn evaluate(
        inputs: [M31; 1],
        id_col0: M31,
        value_limb_0_col1: M31,
        value_limb_1_col2: M31,
        value_limb_2_col3: M31,
        value_limb_3_col4: M31,
        value_limb_4_col5: M31,
        value_limb_5_col6: M31,
        value_limb_6_col7: M31,
        value_limb_7_col8: M31,
        value_limb_8_col9: M31,
        value_limb_9_col10: M31,
        value_limb_10_col11: M31,
        memory_address_to_id_lookup_elements: &MemoryAddressToId,
        memory_id_to_big_lookup_elements: &MemoryIdToBig,
        eval: &mut EvalContext,
    ) -> (r: [M31; 0])
        requires
            old(eval).wf(),
        ensures
            final(eval).wf(),
            final(eval).view_entries() == old(eval).view_entries() + read_entries(
                inputs@[0],
                id_col0,
                seq![
                    value_limb_0_col1,
                    value_limb_1_col2,
                    value_limb_2_col3,
                    value_limb_3_col4,
                    value_limb_4_col5,
                    value_limb_5_col6,
                    value_limb_6_col7,
                    value_limb_7_col8,
                    value_limb_8_col9,
                    value_limb_9_col10,
                    value_limb_10_col11,
                ],
            ),
    {
        let ghost before = eval.view_entries();
        let mut address_args: Vec<M31> = Vec::new();
        address_args.push(inputs[0]);
        address_args.push(id_col0);
        let ghost address_view = address_args@;
        eval.add_to_relation(
            RelationEntry {
                relation: RelationKind::MemoryAddressToId,
                multiplicity: 1,
                args: address_args,
            },
        );
        let mut big_args: Vec<M31> = Vec::new();
        big_args.push(id_col0);
        big_args.push(value_limb_0_col1);
        big_args.push(value_limb_1_col2);
        big_args.push(value_limb_2_col3);
        big_args.push(value_limb_3_col4);
        big_args.push(value_limb_4_col5);
        big_args.push(value_limb_5_col6);
        big_args.push(value_limb_6_col7);
        big_args.push(value_limb_7_col8);
        big_args.push(value_limb_8_col9);
        big_args.push(value_limb_9_col10);
        big_args.push(value_limb_10_col11);
        let ghost big_view = big_args@;
        eval.add_to_relation(
            RelationEntry { relation: RelationKind::MemoryIdToBig, multiplicity: 1, args: big_args },
        );
        proof {
            let limbs = seq![
                value_limb_0_col1,
                value_limb_1_col2,
                value_limb_2_col3,
                value_limb_3_col4,
                value_limb_4_col5,
                value_limb_5_col6,
                value_limb_6_col7,
                value_limb_7_col8,
                value_limb_8_col9,
                value_limb_9_col10,
                value_limb_10_col11,
            ];
            let expected = read_entries(inputs@[0], id_col0, limbs);
            assert(address_view =~= expected[0].args);
            assert(big_view =~= expected[1].args);
            assert(eval.view_entries()[before.len() as int] == expected[0]);
            assert(eval.view_entries()[before.len() as int + 1] == expected[1]);
            assert(eval.view_entries() =~= before + expected);
        }
        []
    }
}

} // verus!
