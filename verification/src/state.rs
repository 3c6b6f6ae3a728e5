//! The persistent state slab and its codec.
//!
//! All pipeline state lives in one 3,900-byte account slab whose layout is
//! fixed. `unpack_from_slice` splits the slab into the semantic fields
//! before an instruction runs; `pack_into_slice` writes back afterwards,
//! rewriting only the ranges whose dirty bit the mutator set, beside the
//! instruction index and the initialization byte, and leaving every other
//! byte — including the opaque region other subsystems own — untouched.
//! `packed_byte` is the byte-exact statement of that write-back, and with it
//! the layout of the whole slab.

use crate::le_bytes::{
    le_val, lemma_u64_le_byte_of_le_val, u64_from_le, u64_le_byte, u64_to_le, vec_range,
    write_byte_if, write_range_if,
};
use vstd::prelude::*;

verus! {

/// The slab's total length in bytes.
pub const STATE_LEN: usize = 3900;

/// The decoded persistent state of the prepare-inputs pipeline.
///
/// The first group of fields passes through to other subsystems of the
/// enclosing verifier; the `i`/`x` pairs, the accumulator `res`, and the
/// running sum `g_ic` belong to this pipeline. The two dirty masks say
/// which fields a mutator changed; only those are written back.
pub struct PrepareInputsState {
    pub is_initialized: bool,
    pub found_root: u8,
    pub found_nullifier: u8,
    pub executed_withdraw: u8,
    pub signing_address: Vec<u8>,
    pub relayer_refund: Vec<u8>,
    pub to_address: Vec<u8>,
    pub amount: Vec<u8>,
    pub nullifier_hash: Vec<u8>,
    pub root_hash: Vec<u8>,
    pub data_hash: Vec<u8>,
    pub tx_integrity_hash: Vec<u8>,
    pub current_instruction_index: u64,
    pub i_1_range: Vec<u8>,
    pub x_1_range: Vec<u8>,
    pub i_2_range: Vec<u8>,
    pub x_2_range: Vec<u8>,
    pub i_3_range: Vec<u8>,
    pub x_3_range: Vec<u8>,
    pub i_4_range: Vec<u8>,
    pub x_4_range: Vec<u8>,
    pub i_5_range: Vec<u8>,
    pub x_5_range: Vec<u8>,
    pub i_6_range: Vec<u8>,
    pub x_6_range: Vec<u8>,
    pub i_7_range: Vec<u8>,
    pub x_7_range: Vec<u8>,
    pub res_x_range: Vec<u8>,
    pub res_y_range: Vec<u8>,
    pub res_z_range: Vec<u8>,
    pub g_ic_x_range: Vec<u8>,
    pub g_ic_y_range: Vec<u8>,
    pub g_ic_z_range: Vec<u8>,
    pub proof_a_b_c_leaves_and_nullifiers: Vec<u8>,
    pub changed_variables: [bool; 20],
    pub changed_constants: [bool; 12],
}

impl PrepareInputsState {
    /// Every field has the length its slab range has.
    pub open spec fn wf(&self) -> bool {
        &&& self.signing_address@.len() == 32
        &&& self.relayer_refund@.len() == 8
        &&& self.to_address@.len() == 32
        &&& self.amount@.len() == 8
        &&& self.nullifier_hash@.len() == 32
        &&& self.root_hash@.len() == 32
        &&& self.data_hash@.len() == 32
        &&& self.tx_integrity_hash@.len() == 32
        &&& self.i_1_range@.len() == 32
        &&& self.x_1_range@.len() == 64
        &&& self.i_2_range@.len() == 32
        &&& self.x_2_range@.len() == 64
        &&& self.i_3_range@.len() == 32
        &&& self.x_3_range@.len() == 64
        &&& self.i_4_range@.len() == 32
        &&& self.x_4_range@.len() == 64
        &&& self.i_5_range@.len() == 32
        &&& self.x_5_range@.len() == 64
        &&& self.i_6_range@.len() == 32
        &&& self.x_6_range@.len() == 64
        &&& self.i_7_range@.len() == 32
        &&& self.x_7_range@.len() == 64
        &&& self.res_x_range@.len() == 32
        &&& self.res_y_range@.len() == 32
        &&& self.res_z_range@.len() == 32
        &&& self.g_ic_x_range@.len() == 32
        &&& self.g_ic_y_range@.len() == 32
        &&& self.g_ic_z_range@.len() == 32
        &&& self.proof_a_b_c_leaves_and_nullifiers@.len() == 384
    }
}

/// Byte `j` of the slab after a pack of `st` over the previous slab `old`:
/// the initialization byte is forced to 1 once set; the instruction index is
/// always written; a field's range takes the field's bytes when its dirty
/// bit is set and keeps the old bytes otherwise; the region
/// `1084 .. 3516` belongs to other subsystems and is never written.
pub open spec fn packed_byte(st: PrepareInputsState, old: Seq<u8>, j: int) -> u8 {
    if j == 0 {
        if st.is_initialized {
            1u8
        } else {
            old[j]
        }
    } else if j == 1 {
        if st.changed_constants@[0] {
            st.found_root
        } else {
            old[j]
        }
    } else if j == 2 {
        if st.changed_constants@[1] {
            st.found_nullifier
        } else {
            old[j]
        }
    } else if j == 3 {
        if st.changed_constants@[2] {
            st.executed_withdraw
        } else {
            old[j]
        }
    } else if 4 <= j < 36 {
        if st.changed_constants@[3] {
            st.signing_address@[j - 4]
        } else {
            old[j]
        }
    } else if 36 <= j < 44 {
        if st.changed_constants@[4] {
            st.relayer_refund@[j - 36]
        } else {
            old[j]
        }
    } else if 44 <= j < 76 {
        if st.changed_constants@[5] {
            st.to_address@[j - 44]
        } else {
            old[j]
        }
    } else if 76 <= j < 84 {
        if st.changed_constants@[6] {
            st.amount@[j - 76]
        } else {
            old[j]
        }
    } else if 84 <= j < 116 {
        if st.changed_constants@[7] {
            st.nullifier_hash@[j - 84]
        } else {
            old[j]
        }
    } else if 116 <= j < 148 {
        if st.changed_constants@[8] {
            st.root_hash@[j - 116]
        } else {
            old[j]
        }
    } else if 148 <= j < 180 {
        if st.changed_constants@[9] {
            st.data_hash@[j - 148]
        } else {
            old[j]
        }
    } else if 180 <= j < 212 {
        if st.changed_constants@[10] {
            st.tx_integrity_hash@[j - 180]
        } else {
            old[j]
        }
    } else if 212 <= j < 220 {
        u64_le_byte(st.current_instruction_index, j - 212)
    } else if 220 <= j < 252 {
        if st.changed_variables@[0] {
            st.i_1_range@[j - 220]
        } else {
            old[j]
        }
    } else if 252 <= j < 316 {
        if st.changed_variables@[1] {
            st.x_1_range@[j - 252]
        } else {
            old[j]
        }
    } else if 316 <= j < 348 {
        if st.changed_variables@[2] {
            st.i_2_range@[j - 316]
        } else {
            old[j]
        }
    } else if 348 <= j < 412 {
        if st.changed_variables@[3] {
            st.x_2_range@[j - 348]
        } else {
            old[j]
        }
    } else if 412 <= j < 444 {
        if st.changed_variables@[4] {
            st.i_3_range@[j - 412]
        } else {
            old[j]
        }
    } else if 444 <= j < 508 {
        if st.changed_variables@[5] {
            st.x_3_range@[j - 444]
        } else {
            old[j]
        }
    } else if 508 <= j < 540 {
        if st.changed_variables@[6] {
            st.i_4_range@[j - 508]
        } else {
            old[j]
        }
    } else if 540 <= j < 604 {
        if st.changed_variables@[7] {
            st.x_4_range@[j - 540]
        } else {
            old[j]
        }
    } else if 604 <= j < 636 {
        if st.changed_variables@[8] {
            st.i_5_range@[j - 604]
        } else {
            old[j]
        }
    } else if 636 <= j < 700 {
        if st.changed_variables@[9] {
            st.x_5_range@[j - 636]
        } else {
            old[j]
        }
    } else if 700 <= j < 732 {
        if st.changed_variables@[10] {
            st.i_6_range@[j - 700]
        } else {
            old[j]
        }
    } else if 732 <= j < 796 {
        if st.changed_variables@[11] {
            st.x_6_range@[j - 732]
        } else {
            old[j]
        }
    } else if 796 <= j < 828 {
        if st.changed_variables@[12] {
            st.i_7_range@[j - 796]
        } else {
            old[j]
        }
    } else if 828 <= j < 892 {
        if st.changed_variables@[13] {
            st.x_7_range@[j - 828]
        } else {
            old[j]
        }
    } else if 892 <= j < 924 {
        if st.changed_variables@[14] {
            st.res_x_range@[j - 892]
        } else {
            old[j]
        }
    } else if 924 <= j < 956 {
        if st.changed_variables@[15] {
            st.res_y_range@[j - 924]
        } else {
            old[j]
        }
    } else if 956 <= j < 988 {
        if st.changed_variables@[16] {
            st.res_z_range@[j - 956]
        } else {
            old[j]
        }
    } else if 988 <= j < 1020 {
        if st.changed_variables@[17] {
            st.g_ic_x_range@[j - 988]
        } else {
            old[j]
        }
    } else if 1020 <= j < 1052 {
        if st.changed_variables@[18] {
            st.g_ic_y_range@[j - 1020]
        } else {
            old[j]
        }
    } else if 1052 <= j < 1084 {
        if st.changed_variables@[19] {
            st.g_ic_z_range@[j - 1052]
        } else {
            old[j]
        }
    } else if 3516 <= j < 3900 {
        if st.changed_constants@[11] {
            st.proof_a_b_c_leaves_and_nullifiers@[j - 3516]
        } else {
            old[j]
        }
    } else {
        old[j]
    }
}

/// The whole slab after a pack of `st` over the previous slab `old`.
pub open spec fn packed_bytes(st: PrepareInputsState, old: Seq<u8>) -> Seq<u8> {
    Seq::new(3900, |j: int| packed_byte(st, old, j))
}

impl PrepareInputsState {
    /// Splits the slab into its fields. The decoded state starts with every
    /// dirty bit clear and counts as initialized.
    pub fn unpack_from_slice(input: &Vec<u8>) -> (r: PrepareInputsState)
        requires
            input@.len() == 3900,
        ensures
            r.wf(),
            r.is_initialized == true,
            r.found_root == input@[1],
            r.found_nullifier == input@[2],
            r.executed_withdraw == input@[3],
            r.signing_address@ == input@.subrange(4, 36),
            r.relayer_refund@ == input@.subrange(36, 44),
            r.to_address@ == input@.subrange(44, 76),
            r.amount@ == input@.subrange(76, 84),
            r.nullifier_hash@ == input@.subrange(84, 116),
            r.root_hash@ == input@.subrange(116, 148),
            r.data_hash@ == input@.subrange(148, 180),
            r.tx_integrity_hash@ == input@.subrange(180, 212),
            r.current_instruction_index == le_val(input@.subrange(212, 220)),
            r.i_1_range@ == input@.subrange(220, 252),
            r.x_1_range@ == input@.subrange(252, 316),
            r.i_2_range@ == input@.subrange(316, 348),
            r.x_2_range@ == input@.subrange(348, 412),
            r.i_3_range@ == input@.subrange(412, 444),
            r.x_3_range@ == input@.subrange(444, 508),
            r.i_4_range@ == input@.subrange(508, 540),
            r.x_4_range@ == input@.subrange(540, 604),
            r.i_5_range@ == input@.subrange(604, 636),
            r.x_5_range@ == input@.subrange(636, 700),
            r.i_6_range@ == input@.subrange(700, 732),
            r.x_6_range@ == input@.subrange(732, 796),
            r.i_7_range@ == input@.subrange(796, 828),
            r.x_7_range@ == input@.subrange(828, 892),
            r.res_x_range@ == input@.subrange(892, 924),
            r.res_y_range@ == input@.subrange(924, 956),
            r.res_z_range@ == input@.subrange(956, 988),
            r.g_ic_x_range@ == input@.subrange(988, 1020),
            r.g_ic_y_range@ == input@.subrange(1020, 1052),
            r.g_ic_z_range@ == input@.subrange(1052, 1084),
            r.proof_a_b_c_leaves_and_nullifiers@ == input@.subrange(3516, 3900),
            forall|k: int| 0 <= k < 20 ==> !r.changed_variables@[k],
            forall|k: int| 0 <= k < 12 ==> !r.changed_constants@[k],
    {
        PrepareInputsState {
            is_initialized: true,
            found_root: input[1],
            found_nullifier: input[2],
            executed_withdraw: input[3],
            signing_address: vec_range(input, 4, 36),
            relayer_refund: vec_range(input, 36, 44),
            to_address: vec_range(input, 44, 76),
            amount: vec_range(input, 76, 84),
            nullifier_hash: vec_range(input, 84, 116),
            root_hash: vec_range(input, 116, 148),
            data_hash: vec_range(input, 148, 180),
            tx_integrity_hash: vec_range(input, 180, 212),
            current_instruction_index: u64_from_le(input, 212),
            i_1_range: vec_range(input, 220, 252),
            x_1_range: vec_range(input, 252, 316),
            i_2_range: vec_range(input, 316, 348),
            x_2_range: vec_range(input, 348, 412),
            i_3_range: vec_range(input, 412, 444),
            x_3_range: vec_range(input, 444, 508),
            i_4_range: vec_range(input, 508, 540),
            x_4_range: vec_range(input, 540, 604),
            i_5_range: vec_range(input, 604, 636),
            x_5_range: vec_range(input, 636, 700),
            i_6_range: vec_range(input, 700, 732),
            x_6_range: vec_range(input, 732, 796),
            i_7_range: vec_range(input, 796, 828),
            x_7_range: vec_range(input, 828, 892),
            res_x_range: vec_range(input, 892, 924),
            res_y_range: vec_range(input, 924, 956),
            res_z_range: vec_range(input, 956, 988),
            g_ic_x_range: vec_range(input, 988, 1020),
            g_ic_y_range: vec_range(input, 1020, 1052),
            g_ic_z_range: vec_range(input, 1052, 1084),
            proof_a_b_c_leaves_and_nullifiers: vec_range(input, 3516, 3900),
            changed_variables: [false;20],
            changed_constants: [false;12],
        }
    }

    /// Writes the state back over the slab: exactly as `packed_byte` says,
    /// range by range — dirty ranges take their field's bytes, the
    /// instruction index and, once set, the initialization byte are always
    /// written, and every other byte keeps its previous value.
    /// Writes back the twenty variable ranges whose dirty bit is set; no
    /// byte outside `220 .. 1084` moves.
    #[verifier::rlimit(100)]
    fn pack_variables(&self, dst: &mut Vec<u8>)
        requires
            self.wf(),
            old(dst)@.len() == 3900,
        ensures
            final(dst)@.len() == 3900,
            forall|j: int|
                #![trigger final(dst)@[j]]
                220 <= j < 252 ==> final(dst)@[j] == (if self.changed_variables@[0] {
                    self.i_1_range@[j - 220]
                } else {
                    old(dst)@[j]
                }),
            forall|j: int|
                #![trigger final(dst)@[j]]
                252 <= j < 316 ==> final(dst)@[j] == (if self.changed_variables@[1] {
                    self.x_1_range@[j - 252]
                } else {
                    old(dst)@[j]
                }),
            forall|j: int|
                #![trigger final(dst)@[j]]
                316 <= j < 348 ==> final(dst)@[j] == (if self.changed_variables@[2] {
                    self.i_2_range@[j - 316]
                } else {
                    old(dst)@[j]
                }),
            forall|j: int|
                #![trigger final(dst)@[j]]
                348 <= j < 412 ==> final(dst)@[j] == (if self.changed_variables@[3] {
                    self.x_2_range@[j - 348]
                } else {
                    old(dst)@[j]
                }),
            forall|j: int|
                #![trigger final(dst)@[j]]
                412 <= j < 444 ==> final(dst)@[j] == (if self.changed_variables@[4] {
                    self.i_3_range@[j - 412]
                } else {
                    old(dst)@[j]
                }),
            forall|j: int|
                #![trigger final(dst)@[j]]
                444 <= j < 508 ==> final(dst)@[j] == (if self.changed_variables@[5] {
                    self.x_3_range@[j - 444]
                } else {
                    old(dst)@[j]
                }),
            forall|j: int|
                #![trigger final(dst)@[j]]
                508 <= j < 540 ==> final(dst)@[j] == (if self.changed_variables@[6] {
                    self.i_4_range@[j - 508]
                } else {
                    old(dst)@[j]
                }),
            forall|j: int|
                #![trigger final(dst)@[j]]
                540 <= j < 604 ==> final(dst)@[j] == (if self.changed_variables@[7] {
                    self.x_4_range@[j - 540]
                } else {
                    old(dst)@[j]
                }),
            forall|j: int|
                #![trigger final(dst)@[j]]
                604 <= j < 636 ==> final(dst)@[j] == (if self.changed_variables@[8] {
                    self.i_5_range@[j - 604]
                } else {
                    old(dst)@[j]
                }),
            forall|j: int|
                #![trigger final(dst)@[j]]
                636 <= j < 700 ==> final(dst)@[j] == (if self.changed_variables@[9] {
                    self.x_5_range@[j - 636]
                } else {
                    old(dst)@[j]
                }),
            forall|j: int|
                #![trigger final(dst)@[j]]
                700 <= j < 732 ==> final(dst)@[j] == (if self.changed_variables@[10] {
                    self.i_6_range@[j - 700]
                } else {
                    old(dst)@[j]
                }),
            forall|j: int|
                #![trigger final(dst)@[j]]
                732 <= j < 796 ==> final(dst)@[j] == (if self.changed_variables@[11] {
                    self.x_6_range@[j - 732]
                } else {
                    old(dst)@[j]
                }),
            forall|j: int|
                #![trigger final(dst)@[j]]
                796 <= j < 828 ==> final(dst)@[j] == (if self.changed_variables@[12] {
                    self.i_7_range@[j - 796]
                } else {
                    old(dst)@[j]
                }),
            forall|j: int|
                #![trigger final(dst)@[j]]
                828 <= j < 892 ==> final(dst)@[j] == (if self.changed_variables@[13] {
                    self.x_7_range@[j - 828]
                } else {
                    old(dst)@[j]
                }),
            forall|j: int|
                #![trigger final(dst)@[j]]
                892 <= j < 924 ==> final(dst)@[j] == (if self.changed_variables@[14] {
                    self.res_x_range@[j - 892]
                } else {
                    old(dst)@[j]
                }),
            forall|j: int|
                #![trigger final(dst)@[j]]
                924 <= j < 956 ==> final(dst)@[j] == (if self.changed_variables@[15] {
                    self.res_y_range@[j - 924]
                } else {
                    old(dst)@[j]
                }),
            forall|j: int|
                #![trigger final(dst)@[j]]
                956 <= j < 988 ==> final(dst)@[j] == (if self.changed_variables@[16] {
                    self.res_z_range@[j - 956]
                } else {
                    old(dst)@[j]
                }),
            forall|j: int|
                #![trigger final(dst)@[j]]
                988 <= j < 1020 ==> final(dst)@[j] == (if self.changed_variables@[17] {
                    self.g_ic_x_range@[j - 988]
                } else {
                    old(dst)@[j]
                }),
            forall|j: int|
                #![trigger final(dst)@[j]]
                1020 <= j < 1052 ==> final(dst)@[j] == (if self.changed_variables@[18] {
                    self.g_ic_y_range@[j - 1020]
                } else {
                    old(dst)@[j]
                }),
            forall|j: int|
                #![trigger final(dst)@[j]]
                1052 <= j < 1084 ==> final(dst)@[j] == (if self.changed_variables@[19] {
                    self.g_ic_z_range@[j - 1052]
                } else {
                    old(dst)@[j]
                }),
            forall|j: int|
                #![trigger final(dst)@[j]]
                0 <= j < 3900 && !(220 <= j < 1084) ==> final(dst)@[j] == old(dst)@[j],
    {
        write_range_if(dst, 220, &self.i_1_range, self.changed_variables[0]);
        write_range_if(dst, 252, &self.x_1_range, self.changed_variables[1]);
        write_range_if(dst, 316, &self.i_2_range, self.changed_variables[2]);
        write_range_if(dst, 348, &self.x_2_range, self.changed_variables[3]);
        write_range_if(dst, 412, &self.i_3_range, self.changed_variables[4]);
        write_range_if(dst, 444, &self.x_3_range, self.changed_variables[5]);
        write_range_if(dst, 508, &self.i_4_range, self.changed_variables[6]);
        write_range_if(dst, 540, &self.x_4_range, self.changed_variables[7]);
        write_range_if(dst, 604, &self.i_5_range, self.changed_variables[8]);
        write_range_if(dst, 636, &self.x_5_range, self.changed_variables[9]);
        write_range_if(dst, 700, &self.i_6_range, self.changed_variables[10]);
        write_range_if(dst, 732, &self.x_6_range, self.changed_variables[11]);
        write_range_if(dst, 796, &self.i_7_range, self.changed_variables[12]);
        write_range_if(dst, 828, &self.x_7_range, self.changed_variables[13]);
        write_range_if(dst, 892, &self.res_x_range, self.changed_variables[14]);
        write_range_if(dst, 924, &self.res_y_range, self.changed_variables[15]);
        write_range_if(dst, 956, &self.res_z_range, self.changed_variables[16]);
        write_range_if(dst, 988, &self.g_ic_x_range, self.changed_variables[17]);
        write_range_if(dst, 1020, &self.g_ic_y_range, self.changed_variables[18]);
        write_range_if(dst, 1052, &self.g_ic_z_range, self.changed_variables[19]);
    }

    /// Writes back the twelve constant fields whose dirty bit is set; no
    /// byte outside `1 .. 212` and `3516 .. 3900` moves.
    #[verifier::rlimit(100)]
    fn pack_constants(&self, dst: &mut Vec<u8>)
        requires
            self.wf(),
            old(dst)@.len() == 3900,
        ensures
            final(dst)@.len() == 3900,
            final(dst)@[1] == (if self.changed_constants@[0] {
                self.found_root
            } else {
                old(dst)@[1]
            }),
            final(dst)@[2] == (if self.changed_constants@[1] {
                self.found_nullifier
            } else {
                old(dst)@[2]
            }),
            final(dst)@[3] == (if self.changed_constants@[2] {
                self.executed_withdraw
            } else {
                old(dst)@[3]
            }),
            forall|j: int|
                #![trigger final(dst)@[j]]
                4 <= j < 36 ==> final(dst)@[j] == (if self.changed_constants@[3] {
                    self.signing_address@[j - 4]
                } else {
                    old(dst)@[j]
                }),
            forall|j: int|
                #![trigger final(dst)@[j]]
                36 <= j < 44 ==> final(dst)@[j] == (if self.changed_constants@[4] {
                    self.relayer_refund@[j - 36]
                } else {
                    old(dst)@[j]
                }),
            forall|j: int|
                #![trigger final(dst)@[j]]
                44 <= j < 76 ==> final(dst)@[j] == (if self.changed_constants@[5] {
                    self.to_address@[j - 44]
                } else {
                    old(dst)@[j]
                }),
            forall|j: int|
                #![trigger final(dst)@[j]]
                76 <= j < 84 ==> final(dst)@[j] == (if self.changed_constants@[6] {
                    self.amount@[j - 76]
                } else {
                    old(dst)@[j]
                }),
            forall|j: int|
                #![trigger final(dst)@[j]]
                84 <= j < 116 ==> final(dst)@[j] == (if self.changed_constants@[7] {
                    self.nullifier_hash@[j - 84]
                } else {
                    old(dst)@[j]
                }),
            forall|j: int|
                #![trigger final(dst)@[j]]
                116 <= j < 148 ==> final(dst)@[j] == (if self.changed_constants@[8] {
                    self.root_hash@[j - 116]
                } else {
                    old(dst)@[j]
                }),
            forall|j: int|
                #![trigger final(dst)@[j]]
                148 <= j < 180 ==> final(dst)@[j] == (if self.changed_constants@[9] {
                    self.data_hash@[j - 148]
                } else {
                    old(dst)@[j]
                }),
            forall|j: int|
                #![trigger final(dst)@[j]]
                180 <= j < 212 ==> final(dst)@[j] == (if self.changed_constants@[10] {
                    self.tx_integrity_hash@[j - 180]
                } else {
                    old(dst)@[j]
                }),
            forall|j: int|
                #![trigger final(dst)@[j]]
                3516 <= j < 3900 ==> final(dst)@[j] == (if self.changed_constants@[11] {
                    self.proof_a_b_c_leaves_and_nullifiers@[j - 3516]
                } else {
                    old(dst)@[j]
                }),
            forall|j: int|
                #![trigger final(dst)@[j]]
                0 <= j < 3900 && !(1 <= j < 212) && !(3516 <= j < 3900) ==> final(dst)@[j] == old(
                    dst,
                )@[j],
    {
        write_byte_if(dst, 1, self.found_root, self.changed_constants[0]);
        write_byte_if(dst, 2, self.found_nullifier, self.changed_constants[1]);
        write_byte_if(dst, 3, self.executed_withdraw, self.changed_constants[2]);
        write_range_if(dst, 4, &self.signing_address, self.changed_constants[3]);
        write_range_if(dst, 36, &self.relayer_refund, self.changed_constants[4]);
        write_range_if(dst, 44, &self.to_address, self.changed_constants[5]);
        write_range_if(dst, 76, &self.amount, self.changed_constants[6]);
        write_range_if(dst, 84, &self.nullifier_hash, self.changed_constants[7]);
        write_range_if(dst, 116, &self.root_hash, self.changed_constants[8]);
        write_range_if(dst, 148, &self.data_hash, self.changed_constants[9]);
        write_range_if(dst, 180, &self.tx_integrity_hash, self.changed_constants[10]);
        write_range_if(dst, 3516, &self.proof_a_b_c_leaves_and_nullifiers, self.changed_constants[11]);
    }

    /// Writes the state back over the slab: exactly as `packed_byte` says,
    /// range by range — dirty ranges take their field's bytes, the
    /// instruction index and, once set, the initialization byte are always
    /// written, and every other byte keeps its previous value.
    #[verifier::rlimit(100)]
    pub fn pack_into_slice(&self, dst: &mut Vec<u8>)
        requires
            self.wf(),
            old(dst)@.len() == 3900,
        ensures
            final(dst)@.len() == 3900,
            final(dst)@ == packed_bytes(*self, old(dst)@),
    {
        self.pack_variables(dst);
        self.pack_constants(dst);
        u64_to_le(dst, 212, self.current_instruction_index);
        write_byte_if(dst, 0, 1u8, self.is_initialized);
        proof {
            assert forall|j: int| 0 <= j < 3900 implies dst@[j] == packed_byte(
                *self,
                old(dst)@,
                j,
            ) by {}
            assert(dst@ =~= packed_bytes(*self, old(dst)@));
        }
    }
}

/// Checkpoint idempotence: packing a state that was just unpacked — every
/// dirty bit clear, the instruction index untouched — reproduces the slab
/// byte for byte. The slab's initialization byte must already be 1, as it is
/// in every slab the pipeline has touched; on any other slab a pack forces
/// that one byte to 1.
pub proof fn theorem_checkpoint_idempotence(st: PrepareInputsState, s: Seq<u8>)
    requires
        s.len() == 3900,
        s[0] == 1,
        st.is_initialized,
        forall|k: int| 0 <= k < 20 ==> !st.changed_variables@[k],
        forall|k: int| 0 <= k < 12 ==> !st.changed_constants@[k],
        st.current_instruction_index == le_val(s.subrange(212, 220)),
    ensures
        packed_bytes(st, s) =~= s,
{
    assert forall|j: int| 0 <= j < 3900 implies packed_byte(st, s, j) == s[j] by {
        if 212 <= j < 220 {
            lemma_u64_le_byte_of_le_val(s.subrange(212, 220), j - 212);
        }
    }
}

/// Dirty-bit minimality: a pack rewrites nothing but the initialization
/// byte, the instruction index, and the ranges whose dirty bit is set;
/// every clean range — and the whole opaque region owned by other
/// subsystems — is byte-identical to the pre-image.
pub proof fn theorem_dirty_bit_minimality(st: PrepareInputsState, s: Seq<u8>)
    requires
        s.len() == 3900,
    ensures
        forall|j: int| 1084 <= j < 3516 ==> packed_bytes(st, s)[j] == s[j],
        !st.is_initialized ==> packed_bytes(st, s)[0] == s[0],
        !st.changed_constants@[0] ==> packed_bytes(st, s)[1] == s[1],
        !st.changed_constants@[1] ==> packed_bytes(st, s)[2] == s[2],
        !st.changed_constants@[2] ==> packed_bytes(st, s)[3] == s[3],
        !st.changed_constants@[3] ==> packed_bytes(st, s).subrange(4, 36) =~= s.subrange(4, 36),
        !st.changed_constants@[4] ==> packed_bytes(st, s).subrange(36, 44) =~= s.subrange(36, 44),
        !st.changed_constants@[5] ==> packed_bytes(st, s).subrange(44, 76) =~= s.subrange(44, 76),
        !st.changed_constants@[6] ==> packed_bytes(st, s).subrange(76, 84) =~= s.subrange(76, 84),
        !st.changed_constants@[7] ==> packed_bytes(st, s).subrange(84, 116) =~= s.subrange(84, 116),
        !st.changed_constants@[8] ==> packed_bytes(st, s).subrange(116, 148) =~= s.subrange(
            116,
            148,
        ),
        !st.changed_constants@[9] ==> packed_bytes(st, s).subrange(148, 180) =~= s.subrange(
            148,
            180,
        ),
        !st.changed_constants@[10] ==> packed_bytes(st, s).subrange(180, 212) =~= s.subrange(
            180,
            212,
        ),
        !st.changed_constants@[11] ==> packed_bytes(st, s).subrange(3516, 3900) =~= s.subrange(
            3516,
            3900,
        ),
        !st.changed_variables@[0] ==> packed_bytes(st, s).subrange(220, 252) =~= s.subrange(
            220,
            252,
        ),
        !st.changed_variables@[1] ==> packed_bytes(st, s).subrange(252, 316) =~= s.subrange(
            252,
            316,
        ),
        !st.changed_variables@[2] ==> packed_bytes(st, s).subrange(316, 348) =~= s.subrange(
            316,
            348,
        ),
        !st.changed_variables@[3] ==> packed_bytes(st, s).subrange(348, 412) =~= s.subrange(
            348,
            412,
        ),
        !st.changed_variables@[4] ==> packed_bytes(st, s).subrange(412, 444) =~= s.subrange(
            412,
            444,
        ),
        !st.changed_variables@[5] ==> packed_bytes(st, s).subrange(444, 508) =~= s.subrange(
            444,
            508,
        ),
        !st.changed_variables@[6] ==> packed_bytes(st, s).subrange(508, 540) =~= s.subrange(
            508,
            540,
        ),
        !st.changed_variables@[7] ==> packed_bytes(st, s).subrange(540, 604) =~= s.subrange(
            540,
            604,
        ),
        !st.changed_variables@[8] ==> packed_bytes(st, s).subrange(604, 636) =~= s.subrange(
            604,
            636,
        ),
        !st.changed_variables@[9] ==> packed_bytes(st, s).subrange(636, 700) =~= s.subrange(
            636,
            700,
        ),
        !st.changed_variables@[10] ==> packed_bytes(st, s).subrange(700, 732) =~= s.subrange(
            700,
            732,
        ),
        !st.changed_variables@[11] ==> packed_bytes(st, s).subrange(732, 796) =~= s.subrange(
            732,
            796,
        ),
        !st.changed_variables@[12] ==> packed_bytes(st, s).subrange(796, 828) =~= s.subrange(
            796,
            828,
        ),
        !st.changed_variables@[13] ==> packed_bytes(st, s).subrange(828, 892) =~= s.subrange(
            828,
            892,
        ),
        !st.changed_variables@[14] ==> packed_bytes(st, s).subrange(892, 924) =~= s.subrange(
            892,
            924,
        ),
        !st.changed_variables@[15] ==> packed_bytes(st, s).subrange(924, 956) =~= s.subrange(
            924,
            956,
        ),
        !st.changed_variables@[16] ==> packed_bytes(st, s).subrange(956, 988) =~= s.subrange(
            956,
            988,
        ),
        !st.changed_variables@[17] ==> packed_bytes(st, s).subrange(988, 1020) =~= s.subrange(
            988,
            1020,
        ),
        !st.changed_variables@[18] ==> packed_bytes(st, s).subrange(1020, 1052) =~= s.subrange(
            1020,
            1052,
        ),
        !st.changed_variables@[19] ==> packed_bytes(st, s).subrange(1052, 1084) =~= s.subrange(
            1052,
            1084,
        ),
{
}

} // verus!
