//! Pages of the terminal interface. A page holds only the identifiers it
//! needs to re-fetch its data, and translates one line of user input into
//! an `Action` under a fixed per-page command grammar: a single command
//! letter, or a bare number selecting a row's detail page.

use crate::models::{Action, DBState, find_index};
use vstd::prelude::*;

verus! {

/// One unit of the terminal interface: the epic list, the story list of
/// one epic, or a single story's fields.
#[derive(Clone, Copy, Debug, PartialEq, Eq)]
pub enum Page {
    Home,
    EpicDetail { epic_id: u32 },
    StoryDetail { epic_id: u32, story_id: u32 },
}

/// Whether `c` is an ASCII decimal digit.
pub open spec fn is_digit(c: u8) -> bool {
    48 <= c <= 57
}

/// Whether every byte of `s` is an ASCII decimal digit.
pub open spec fn all_digits(s: Seq<u8>) -> bool {
    forall|i: int| 0 <= i < s.len() ==> is_digit(#[trigger] s[i])
}

/// The number the digit string `s` denotes, most significant digit first.
pub open spec fn digits_value(s: Seq<u8>) -> int
    decreases s.len(),
{
    if s.len() == 0 {
        0
    } else {
        digits_value(s.drop_last()) * 10 + (s.last() - 48)
    }
}

/// The identifier a whole input line denotes: a nonempty string of
/// decimal digits whose value fits in an identifier; anything else is
/// unrecognized.
pub open spec fn parsed_id(s: Seq<u8>) -> Option<u32> {
    if s.len() > 0 && all_digits(s) && digits_value(s) <= u32::MAX {
        Some(digits_value(s) as u32)
    } else {
        None
    }
}

proof fn lemma_digits_value_nonneg(s: Seq<u8>)
    requires
        all_digits(s),
    ensures
        digits_value(s) >= 0,
    decreases s.len(),
{
    if s.len() > 0 {
        assert(all_digits(s.drop_last()));
        lemma_digits_value_nonneg(s.drop_last());
    }
}

/// A digit string's value is at least the value of any of its prefixes.
proof fn lemma_digits_value_prefix_le(s: Seq<u8>, i: int)
    requires
        all_digits(s),
        0 <= i <= s.len(),
    ensures
        digits_value(s.take(i)) <= digits_value(s),
    decreases s.len() - i,
{
    if i < s.len() {
        assert(s.take(i + 1).drop_last() =~= s.take(i));
        assert(all_digits(s.take(i + 1)));
        assert(all_digits(s.take(i)));
        lemma_digits_value_nonneg(s.take(i));
        assert(digits_value(s.take(i)) <= digits_value(s.take(i + 1)));
        lemma_digits_value_prefix_le(s, i + 1);
        assert(s.take(s.len() as int) =~= s);
    } else {
        assert(s.take(i) =~= s);
    }
}

/// Parses a whole input line as an identifier; returns exactly what
/// `parsed_id` denotes.
pub fn parse_id(input: &[u8]) -> (r: Option<u32>)
    ensures
        r == parsed_id(input@),
{
    if input.len() == 0 {
        return None;
    }
    let mut acc: u64 = 0;
    let mut i: usize = 0;
    while i < input.len()
        invariant
            0 < input@.len(),
            i <= input@.len(),
            all_digits(input@.take(i as int)),
            acc == digits_value(input@.take(i as int)),
            acc <= u32::MAX,
        decreases input@.len() - i,
    {
        let c = input[i];
        if c < 48 || c > 57 {
            assert(!all_digits(input@)) by {
                assert(!is_digit(input@[i as int]));
            }
            return None;
        }
        let next: u64 = acc * 10 + ((c - 48) as u64);
        proof {
            assert(input@.take(i + 1).drop_last() =~= input@.take(i as int));
            assert(next == digits_value(input@.take(i + 1)));
        }
        if next > 0xffff_ffff {
            proof {
                if parsed_id(input@) is Some {
                    lemma_digits_value_prefix_le(input@, i + 1);
                }
            }
            return None;
        }
        acc = next;
        i += 1;
    }
    proof {
        assert(input@.take(input@.len() as int) =~= input@);
    }
    Some(acc as u32)
}

/// Whether `s` is the single command letter `c`.
pub open spec fn is_cmd(s: Seq<u8>, c: u8) -> bool {
    s.len() == 1 && s[0] == c
}

/// The action (if any) a page yields for one input line, given the
/// current snapshot: `q` quits, `p` goes back, `c` creates, `u` updates
/// a status, `d` deletes, and a bare number opens the detail page of the
/// row with that identifier, provided the snapshot resolves it.
pub open spec fn page_input_spec(page: Page, db: DBState, input: Seq<u8>) -> Option<Action> {
    match page {
        Page::Home => {
            if is_cmd(input, 113) {  // q
                Some(Action::Exit)
            } else if is_cmd(input, 99) {  // c
                Some(Action::CreateEpic)
            } else {
                match parsed_id(input) {
                    Some(id) => if db.epics@.contains_key(id) {
                        Some(Action::NavigateToEpicDetail { epic_id: id })
                    } else {
                        None
                    },
                    None => None,
                }
            }
        },
        Page::EpicDetail { epic_id } => {
            if is_cmd(input, 112) {  // p
                Some(Action::NavigateToPreviousPage)
            } else if is_cmd(input, 117) {  // u
                Some(Action::UpdateEpicStatus { epic_id })
            } else if is_cmd(input, 100) {  // d
                Some(Action::DeleteEpic { epic_id })
            } else if is_cmd(input, 99) {  // c
                Some(Action::CreateStory { epic_id })
            } else {
                match parsed_id(input) {
                    Some(id) => if db.epics@.contains_key(epic_id)
                        && db.epics@[epic_id].stories@.contains(id) {
                        Some(Action::NavigateToStoryDetail { epic_id, story_id: id })
                    } else {
                        None
                    },
                    None => None,
                }
            }
        },
        Page::StoryDetail { epic_id, story_id } => {
            if is_cmd(input, 112) {  // p
                Some(Action::NavigateToPreviousPage)
            } else if is_cmd(input, 117) {  // u
                Some(Action::UpdateStoryStatus { story_id })
            } else if is_cmd(input, 100) {  // d
                Some(Action::DeleteStory { epic_id, story_id })
            } else {
                None
            }
        },
    }
}

impl Page {
    /// Translates one line of user input into an action, reading the
    /// snapshot only to check that a selected row exists. Unrecognized
    /// input yields no action; the snapshot is never changed.
    pub fn handle_input(&self, db: &DBState, input: &[u8]) -> (r: Option<Action>)
        ensures
            r == page_input_spec(*self, *db, input@),
    {
        let is_one = input.len() == 1;
        match self {
            Page::Home => {
                if is_one && input[0] == 113 {
                    Some(Action::Exit)
                } else if is_one && input[0] == 99 {
                    Some(Action::CreateEpic)
                } else {
                    match parse_id(input) {
                        Some(id) => {
                            if db.epics.contains_key(&id) {
                                Some(Action::NavigateToEpicDetail { epic_id: id })
                            } else {
                                None
                            }
                        },
                        None => None,
                    }
                }
            },
            Page::EpicDetail { epic_id } => {
                if is_one && input[0] == 112 {
                    Some(Action::NavigateToPreviousPage)
                } else if is_one && input[0] == 117 {
                    Some(Action::UpdateEpicStatus { epic_id: *epic_id })
                } else if is_one && input[0] == 100 {
                    Some(Action::DeleteEpic { epic_id: *epic_id })
                } else if is_one && input[0] == 99 {
                    Some(Action::CreateStory { epic_id: *epic_id })
                } else {
                    match parse_id(input) {
                        Some(id) => {
                            let listed = match db.epics.get(epic_id) {
                                Some(e) => find_index(&e.stories, id).is_some(),
                                None => false,
                            };
                            if listed {
                                Some(
                                    Action::NavigateToStoryDetail {
                                        epic_id: *epic_id,
                                        story_id: id,
                                    },
                                )
                            } else {
                                None
                            }
                        },
                        None => None,
                    }
                }
            },
            Page::StoryDetail { epic_id, story_id } => {
                if is_one && input[0] == 112 {
                    Some(Action::NavigateToPreviousPage)
                } else if is_one && input[0] == 117 {
                    Some(Action::UpdateStoryStatus { story_id: *story_id })
                } else if is_one && input[0] == 100 {
                    Some(Action::DeleteStory { epic_id: *epic_id, story_id: *story_id })
                } else {
                    None
                }
            },
        }
    }
}

} // verus!
