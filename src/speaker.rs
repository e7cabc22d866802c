use vstd::prelude::*;
use std::collections::HashMap;
use crate::error::PiperError;

verus! {

broadcast use vstd::std_specs::hash::group_hash_axioms;

/// Speaker names by id, the last of several names with one id standing.
pub open spec fn reversed_names(entries: Seq<(String, i64)>) -> Map<i64, Seq<char>>
    decreases entries.len(),
{
    if entries.len() == 0 {
        Map::empty()
    } else {
        reversed_names(entries.drop_last()).insert(entries.last().1, entries.last().0@)
    }
}

/// Inverts a list of speaker names with their ids into a map from id to name.
pub fn reversed_mapping(entries: &Vec<(String, i64)>) -> (r: HashMap<i64, String>)
    ensures
        r@.dom() == reversed_names(entries@).dom(),
        forall|id: i64| #[trigger] r@.contains_key(id) ==> r@[id]@ == reversed_names(entries@)[id],
{
    let mut r: HashMap<i64, String> = HashMap::new();
    for i in 0..entries.len()
        invariant
            r@.dom() == reversed_names(entries@.take(i as int)).dom(),
            forall|id: i64| #[trigger]
                r@.contains_key(id) ==> r@[id]@ == reversed_names(entries@.take(i as int))[id],
    {
        proof {
            assert(entries@.take(i + 1).drop_last() =~= entries@.take(i as int));
        }
        let name = entries[i].0.clone();
        r.insert(entries[i].1, name);
        proof {
            assert(r@.dom() =~= reversed_names(entries@.take(i + 1)).dom());
        }
    }
    proof {
        assert(entries@.take(entries.len() as int) =~= entries@);
    }
    r
}

/// Selects speaker `sid` where the speaker map holds it; otherwise leaves the
/// selection as it was and reports the id.
pub fn set_speaker(speaker_map: &HashMap<i64, String>, speaker: &mut Option<i64>, sid: i64) -> (r: Option<PiperError>)
    ensures
        speaker_map@.contains_key(sid) ==> r is None && *final(speaker) == Some(sid),
        !speaker_map@.contains_key(sid) ==> r == Some(PiperError::InvalidSpeaker(sid))
            && *final(speaker) == *old(speaker),
{
    if speaker_map.contains_key(&sid) {
        *speaker = Some(sid);
        None
    } else {
        Some(PiperError::InvalidSpeaker(sid))
    }
}

/// The speaker a new synthesis configuration selects: the requested one where
/// the speaker map holds it, the current one where none is requested, and an
/// error, before anything is changed, for an unknown id.
pub fn resolve_speaker(speaker_map: &HashMap<i64, String>, current: Option<i64>, requested: Option<i64>) -> (r: Result<Option<i64>, PiperError>)
    ensures
        r == match requested {
            None => Ok::<Option<i64>, PiperError>(current),
            Some(sid) => if speaker_map@.contains_key(sid) {
                Ok(Some(sid))
            } else {
                Err(PiperError::InvalidSpeaker(sid))
            },
        },
{
    match requested {
        None => Ok(current),
        Some(sid) => {
            if speaker_map.contains_key(&sid) {
                Ok(Some(sid))
            } else {
                Err(PiperError::InvalidSpeaker(sid))
            }
        },
    }
}

/// The speaker id handed to the model: the selected one, or the first
/// speaker where none is selected, and none for a single-speaker voice.
pub fn speaker_input(num_speakers: u32, speaker: Option<i64>) -> (r: Option<i64>)
    ensures
        num_speakers <= 1 ==> r is None,
        num_speakers > 1 ==> r == Some(
            match speaker {
                Some(sid) => sid,
                None => 0,
            },
        ),
{
    if num_speakers > 1 {
        match speaker {
            Some(sid) => Some(sid),
            None => Some(0),
        }
    } else {
        None
    }
}

} // verus!
