//! Advanced power management, message id 0x35.

use crate::bits::{
    lemma_subrange_join, lemma_subrange_middle, lemma_subrange_split, ByteCursor, ByteSink,
};
use crate::packet::{field_u8, short_at, MessageError, Packet, PacketBuilder};
use vstd::prelude::*;

verus! {

/// Message id of the advanced power management message.
pub const POWER_MGMT_ID: u8 = 0x35;

/// Number of bytes of the fields of an advanced power management message.
pub const POWER_MGMT_LEN: usize = 11;

/// The receiver's power management settings.
#[derive(Clone, Copy, Debug, PartialEq, Eq)]
pub struct AdvancedPowerManagement {
    /// Whether power management is on: 1 for on, 0 for off.
    pub apm_enabled: u8,
    /// Number of fixes asked for before the receiver sleeps; 0 for continuous.
    pub number_fixes: u8,
    /// Time between fixes, in s.
    pub time_between_fixes: u8,
    /// Reserved.
    pub spare1: u8,
    /// Largest horizontal error asked for, as a code.
    pub max_horizontal_error: u8,
    /// Largest vertical error asked for, as a code.
    pub max_vertical_error: u8,
    /// Longest time to a fix asked for, in s.
    pub max_response_time: u8,
    /// Whether time or accuracy has priority.
    pub time_acc_priority: u8,
    /// Power duty cycle, in fifths of a percent.
    pub power_duty_cycle: u8,
    /// Time duty cycle, as a code.
    pub time_duty_cycle: u8,
    /// Reserved.
    pub spare2: u8,
}

impl View for AdvancedPowerManagement {
    type V = AdvancedPowerManagement;

    open spec fn view(&self) -> AdvancedPowerManagement {
        *self
    }
}

/// The message whose fields are the bytes of `s` from index `at` on: each field
/// where the layout puts it, the first field that the bytes do not reach
/// reported as a shortage.
pub open spec fn parse_power_mgmt(s: Seq<u8>, at: int) -> Result<AdvancedPowerManagement, MessageError> {
    let avail = s.len() - at;
    if avail < 1 {
        Err(short_at(at, 1))
    } else if avail < 2 {
        Err(short_at(at + 1, 1))
    } else if avail < 3 {
        Err(short_at(at + 2, 1))
    } else if avail < 4 {
        Err(short_at(at + 3, 1))
    } else if avail < 5 {
        Err(short_at(at + 4, 1))
    } else if avail < 6 {
        Err(short_at(at + 5, 1))
    } else if avail < 7 {
        Err(short_at(at + 6, 1))
    } else if avail < 8 {
        Err(short_at(at + 7, 1))
    } else if avail < 9 {
        Err(short_at(at + 8, 1))
    } else if avail < 10 {
        Err(short_at(at + 9, 1))
    } else if avail < 11 {
        Err(short_at(at + 10, 1))
    } else {
        Ok(
            AdvancedPowerManagement {
                apm_enabled: s[at],
                number_fixes: s[at + 1],
                time_between_fixes: s[at + 2],
                spare1: s[at + 3],
                max_horizontal_error: s[at + 4],
                max_vertical_error: s[at + 5],
                max_response_time: s[at + 6],
                time_acc_priority: s[at + 7],
                power_duty_cycle: s[at + 8],
                time_duty_cycle: s[at + 9],
                spare2: s[at + 10],
            },
        )
    }
}

/// The bytes of the fields of `m`, in wire order.
pub open spec fn power_mgmt_bytes(m: AdvancedPowerManagement) -> Result<Seq<u8>, MessageError> {
    Ok(
        seq![m.apm_enabled] + seq![m.number_fixes] + seq![m.time_between_fixes] + seq![m.spare1]
            + seq![m.max_horizontal_error] + seq![m.max_vertical_error]
            + seq![m.max_response_time] + seq![m.time_acc_priority] + seq![m.power_duty_cycle]
            + seq![m.time_duty_cycle] + seq![m.spare2],
    )
}

impl Packet for AdvancedPowerManagement {
    open spec fn type_id(&self) -> u8 {
        POWER_MGMT_ID
    }

    open spec fn encoding(v: AdvancedPowerManagement) -> Result<Seq<u8>, MessageError> {
        power_mgmt_bytes(v)
    }

    fn get_bytes(&self) -> (r: Result<Vec<u8>, MessageError>) {
        let mut out = ByteSink::new();
        out.write_u8(self.apm_enabled);
        out.write_u8(self.number_fixes);
        out.write_u8(self.time_between_fixes);
        out.write_u8(self.spare1);
        out.write_u8(self.max_horizontal_error);
        out.write_u8(self.max_vertical_error);
        out.write_u8(self.max_response_time);
        out.write_u8(self.time_acc_priority);
        out.write_u8(self.power_duty_cycle);
        out.write_u8(self.time_duty_cycle);
        out.write_u8(self.spare2);
        proof {
            assert(out@ =~= power_mgmt_bytes(*self)->Ok_0);
        }
        Ok(out.into_bytes())
    }

    fn get_type(&self) -> (id: u8) {
        POWER_MGMT_ID
    }
}

/// Decoder of advanced power management messages.
#[derive(Clone, Copy, Debug)]
pub struct AdvancedPowerManagementBuilder;

impl PacketBuilder<AdvancedPowerManagement> for AdvancedPowerManagementBuilder {
    open spec fn decoding(s: Seq<u8>, at: int) -> Result<AdvancedPowerManagement, MessageError> {
        parse_power_mgmt(s, at)
    }

    fn build_from(&self, input: &mut ByteCursor<'_>) -> (r: Result<AdvancedPowerManagement, MessageError>)
        ensures
            r is Ok ==> final(input).offset() == old(input).offset() + POWER_MGMT_LEN,
    {
        let mut probe = *input;
        let apm_enabled = field_u8(&mut probe)?;
        let number_fixes = field_u8(&mut probe)?;
        let time_between_fixes = field_u8(&mut probe)?;
        let spare1 = field_u8(&mut probe)?;
        let max_horizontal_error = field_u8(&mut probe)?;
        let max_vertical_error = field_u8(&mut probe)?;
        let max_response_time = field_u8(&mut probe)?;
        let time_acc_priority = field_u8(&mut probe)?;
        let power_duty_cycle = field_u8(&mut probe)?;
        let time_duty_cycle = field_u8(&mut probe)?;
        let spare2 = field_u8(&mut probe)?;
        *input = probe;
        Ok(
            AdvancedPowerManagement {
                apm_enabled,
                number_fixes,
                time_between_fixes,
                spare1,
                max_horizontal_error,
                max_vertical_error,
                max_response_time,
                time_acc_priority,
                power_duty_cycle,
                time_duty_cycle,
                spare2,
            },
        )
    }
}

/// An advanced power management message that the wire can hold reads back from
/// its bytes as it was written, whatever stands around the bytes.
pub proof fn lemma_power_mgmt_round_trip(m: AdvancedPowerManagement, before: Seq<u8>, after: Seq<u8>)
    requires
        power_mgmt_bytes(m) is Ok,
    ensures
        power_mgmt_bytes(m)->Ok_0.len() == POWER_MGMT_LEN,
        parse_power_mgmt(before + power_mgmt_bytes(m)->Ok_0 + after, before.len() as int) == Ok::<
            AdvancedPowerManagement,
            MessageError,
        >(m),
{
    let w = power_mgmt_bytes(m)->Ok_0;
    let s = before + w + after;
    let at = before.len() as int;
    let f0 = seq![m.apm_enabled];
    let f1 = seq![m.number_fixes];
    let f2 = seq![m.time_between_fixes];
    let f3 = seq![m.spare1];
    let f4 = seq![m.max_horizontal_error];
    let f5 = seq![m.max_vertical_error];
    let f6 = seq![m.max_response_time];
    let f7 = seq![m.time_acc_priority];
    let f8 = seq![m.power_duty_cycle];
    let f9 = seq![m.time_duty_cycle];
    let f10 = seq![m.spare2];
    let g1 = f0 + f1;
    let g2 = g1 + f2;
    let g3 = g2 + f3;
    let g4 = g3 + f4;
    let g5 = g4 + f5;
    let g6 = g5 + f6;
    let g7 = g6 + f7;
    let g8 = g7 + f8;
    let g9 = g8 + f9;
    let g10 = g9 + f10;
    assert(w == g10);
    assert(f0.len() == 1);
    assert(f1.len() == 1);
    assert(f2.len() == 1);
    assert(f3.len() == 1);
    assert(f4.len() == 1);
    assert(f5.len() == 1);
    assert(f6.len() == 1);
    assert(f7.len() == 1);
    assert(f8.len() == 1);
    assert(f9.len() == 1);
    assert(f10.len() == 1);
    lemma_subrange_middle(before, w, after);
    lemma_subrange_split(s, at, at + 10, at + 11, g9, f10);
    lemma_subrange_split(s, at, at + 9, at + 10, g8, f9);
    lemma_subrange_split(s, at, at + 8, at + 9, g7, f8);
    lemma_subrange_split(s, at, at + 7, at + 8, g6, f7);
    lemma_subrange_split(s, at, at + 6, at + 7, g5, f6);
    lemma_subrange_split(s, at, at + 5, at + 6, g4, f5);
    lemma_subrange_split(s, at, at + 4, at + 5, g3, f4);
    lemma_subrange_split(s, at, at + 3, at + 4, g2, f3);
    lemma_subrange_split(s, at, at + 2, at + 3, g1, f2);
    lemma_subrange_split(s, at, at + 1, at + 2, f0, f1);
    assert(s.subrange(at, at + 1)[0] == m.apm_enabled);
    assert(s.subrange(at + 1, at + 2)[0] == m.number_fixes);
    assert(s.subrange(at + 2, at + 3)[0] == m.time_between_fixes);
    assert(s.subrange(at + 3, at + 4)[0] == m.spare1);
    assert(s.subrange(at + 4, at + 5)[0] == m.max_horizontal_error);
    assert(s.subrange(at + 5, at + 6)[0] == m.max_vertical_error);
    assert(s.subrange(at + 6, at + 7)[0] == m.max_response_time);
    assert(s.subrange(at + 7, at + 8)[0] == m.time_acc_priority);
    assert(s.subrange(at + 8, at + 9)[0] == m.power_duty_cycle);
    assert(s.subrange(at + 9, at + 10)[0] == m.time_duty_cycle);
    assert(s.subrange(at + 10, at + 11)[0] == m.spare2);
}

/// The bytes from which an advanced power management message was read are the
/// bytes that it is written as.
pub proof fn lemma_power_mgmt_canonical(s: Seq<u8>, at: int)
    requires
        0 <= at,
        parse_power_mgmt(s, at) is Ok,
    ensures
        power_mgmt_bytes(parse_power_mgmt(s, at)->Ok_0) == Ok::<Seq<u8>, MessageError>(
            s.subrange(at, at + POWER_MGMT_LEN),
        ),
{
    let m = parse_power_mgmt(s, at)->Ok_0;
    assert(seq![m.apm_enabled] =~= s.subrange(at, at + 1));
    assert(seq![m.number_fixes] =~= s.subrange(at + 1, at + 2));
    assert(seq![m.time_between_fixes] =~= s.subrange(at + 2, at + 3));
    assert(seq![m.spare1] =~= s.subrange(at + 3, at + 4));
    assert(seq![m.max_horizontal_error] =~= s.subrange(at + 4, at + 5));
    assert(seq![m.max_vertical_error] =~= s.subrange(at + 5, at + 6));
    assert(seq![m.max_response_time] =~= s.subrange(at + 6, at + 7));
    assert(seq![m.time_acc_priority] =~= s.subrange(at + 7, at + 8));
    assert(seq![m.power_duty_cycle] =~= s.subrange(at + 8, at + 9));
    assert(seq![m.time_duty_cycle] =~= s.subrange(at + 9, at + 10));
    assert(seq![m.spare2] =~= s.subrange(at + 10, at + 11));
    lemma_subrange_join(s, at, at + 1, at + 2);
    lemma_subrange_join(s, at, at + 2, at + 3);
    lemma_subrange_join(s, at, at + 3, at + 4);
    lemma_subrange_join(s, at, at + 4, at + 5);
    lemma_subrange_join(s, at, at + 5, at + 6);
    lemma_subrange_join(s, at, at + 6, at + 7);
    lemma_subrange_join(s, at, at + 7, at + 8);
    lemma_subrange_join(s, at, at + 8, at + 9);
    lemma_subrange_join(s, at, at + 9, at + 10);
    lemma_subrange_join(s, at, at + 10, at + 11);
}

} // verus!
