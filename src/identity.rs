use vstd::prelude::*;

verus! {

/// Who issued a command: a chat account, or a name typed at the console.
#[derive(Debug, Clone)]
pub enum UserId {
    Discord(u64),
    Name(String),
}

/// The ledger's signed key for a chat account id: the id shifted down by 2^63, so that
/// the order of ids is kept.
pub fn discord_id_to_i64(id: u64) -> (r: i64)
    ensures
        r == id - 0x8000_0000_0000_0000int,
{
    if id >= 0x8000_0000_0000_0000u64 {
        (id - 0x8000_0000_0000_0000u64) as i64
    } else {
        let below: u64 = 0x8000_0000_0000_0000u64 - id;
        if below == 0x8000_0000_0000_0000u64 {
            i64::MIN
        } else {
            -(below as i64)
        }
    }
}

} // verus!
