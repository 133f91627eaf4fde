//! The mood journal.
use vstd::prelude::*;

verus! {

pub struct MoodEntry {
    pub id: i64,
    pub device_id: String,
    pub mood: String,
    pub note: Option<String>,
    pub energy: i64,
    pub created_at: String,
}

pub struct MoodCount {
    pub mood: String,
    pub count: i64,
}

pub struct MoodQuery {
    pub device_id: Option<String>,
    pub days: Option<i64>,
}

pub struct DeviceQuery {
    pub device_id: Option<String>,
}

pub struct CreateMoodRequest {
    pub device_id: Option<String>,
    pub mood: String,
    pub note: Option<String>,
    pub energy: Option<i64>,
}


/// The energy of a new journal entry: 3 unless given, kept within 1 to 5.
pub fn mood_energy(energy: Option<i64>) -> (e: i64)
    ensures
        e == match energy {
            Some(n) => if n < 1 {
                1
            } else if n > 5 {
                5
            } else {
                n
            },
            None => 3,
        },
        1 <= e <= 5,
{
    let n = match energy {
        Some(n) => n,
        None => 3,
    };
    if n < 1 {
        1
    } else if n > 5 {
        5
    } else {
        n
    }
}

} // verus!
