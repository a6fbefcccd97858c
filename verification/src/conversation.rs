//! The conversation history: an ordered list of chat messages, trimmed when
//! it grows past a fixed bound so that every system message and the most
//! recent other messages are kept.

use vstd::prelude::*;
use vstd::string::*;
use crate::api::{GroqMessage, MessageContent};

verus! {

/// Whether a message carries the system role.
pub open spec fn is_system(m: GroqMessage) -> bool {
    m.role@ == "system"@
}

/// The system messages, and everything else.
pub open spec fn sys_pred() -> spec_fn(GroqMessage) -> bool {
    |m: GroqMessage| is_system(m)
}

pub open spec fn non_sys_pred() -> spec_fn(GroqMessage) -> bool {
    |m: GroqMessage| !is_system(m)
}

/// The conversation after trimming: all system messages in order, then the
/// last `keep` other messages, where `keep` is what the bound leaves after
/// the system messages (never negative).
pub open spec fn spec_trimmed(all: Seq<GroqMessage>, max: int) -> Seq<GroqMessage> {
    let sys = all.filter(sys_pred());
    let non = all.filter(non_sys_pred());
    let keep = if max >= sys.len() {
        max - sys.len()
    } else {
        0
    };
    if non.len() <= keep {
        sys + non
    } else {
        sys + non.skip(non.len() - keep)
    }
}

/// The ordered message history, bounded in length.
#[derive(Debug, Clone)]
pub struct Conversation {
    messages: Vec<GroqMessage>,
    max_history: usize,
}

impl Conversation {
    /// The history's view.
    pub closed spec fn spec_messages(self) -> Seq<GroqMessage> {
        self.messages@
    }

    /// The bound on the history's length.
    pub closed spec fn spec_max_history(self) -> int {
        self.max_history as int
    }

    /// An empty history keeping at most fifty messages.
    pub fn new() -> (r: Conversation)
        ensures
            r.spec_messages() == Seq::<GroqMessage>::empty(),
            r.spec_max_history() == 50,
    {
        Conversation { messages: Vec::new(), max_history: 50 }
    }

    /// Appends a message; when the history then exceeds its bound, it is
    /// trimmed (`spec_trimmed`): system messages survive, the oldest other
    /// messages go.
    #[verifier::loop_isolation(false)]
    pub fn add_message(&mut self, message: GroqMessage)
        ensures
            final(self).spec_max_history() == old(self).spec_max_history(),
            final(self).spec_messages() == (if old(self).spec_messages().push(message).len() > old(
                self,
            ).spec_max_history() {
                spec_trimmed(
                    old(self).spec_messages().push(message),
                    old(self).spec_max_history(),
                )
            } else {
                old(self).spec_messages().push(message)
            }),
    {
        self.messages.push(message);
        if self.messages.len() > self.max_history {
            let ghost all = self.messages@;
            let sys_role = String::from_str("system");
            let mut sys: Vec<GroqMessage> = Vec::new();
            let mut non: Vec<GroqMessage> = Vec::new();
            let ghost f_sys = sys_pred();
            let ghost f_non = non_sys_pred();
            proof {
                reveal_with_fuel(Seq::<GroqMessage>::filter, 2);
                assert(all.take(0) =~= Seq::<GroqMessage>::empty());
                assert(all.take(0).filter(f_sys) =~= sys@);
                assert(all.take(0).filter(f_non) =~= non@);
            }
            let mut i: usize = 0;
            let n = self.messages.len();
            while self.messages.len() > 0
                invariant
                    self.max_history == old(self).max_history,
                    i + self.messages@.len() == n,
                    n == all.len(),
                    self.messages@ == all.skip(i as int),
                    sys@ == all.take(i as int).filter(f_sys),
                    non@ == all.take(i as int).filter(f_non),
                decreases self.messages@.len(),
            {
                let m = self.messages.remove(0);
                proof {
                    assert(all.skip(i as int)[0] == all[i as int]);
                    assert(all.skip(i as int).remove(0) =~= all.skip(i + 1));
                    assert(all.take(i + 1).drop_last() =~= all.take(i as int));
                    assert(all.take(i + 1).last() == all[i as int]);
                }
                let ghost is_sys = is_system(all[i as int]);
                proof {
                    reveal_with_fuel(Seq::<GroqMessage>::filter, 2);
                    assert(f_sys(all[i as int]) == is_system(all[i as int]));
                    assert(f_non(all[i as int]) == !is_system(all[i as int]));
                }
                if m.role == sys_role {
                    sys.push(m);
                    proof {
                        reveal_with_fuel(Seq::<GroqMessage>::filter, 2);
                        assert(sys@ =~= all.take(i + 1).filter(f_sys));
                        assert(non@ =~= all.take(i + 1).filter(f_non));
                    }
                } else {
                    non.push(m);
                    proof {
                        reveal_with_fuel(Seq::<GroqMessage>::filter, 2);
                        assert(sys@ =~= all.take(i + 1).filter(f_sys));
                        assert(non@ =~= all.take(i + 1).filter(f_non));
                    }
                }
                i += 1;
            }
            proof {
                assert(all.take(n as int) =~= all);
            }
            let keep: usize = if self.max_history >= sys.len() {
                self.max_history - sys.len()
            } else {
                0
            };
            let ghost non_all = non@;
            proof {
                assert(non_all.skip(0) =~= non_all);
            }
            while non.len() > keep
                invariant
                    non@.len() <= non_all.len(),
                    non@ == non_all.skip(non_all.len() - non@.len()),
                    keep <= non_all.len() ==> non@.len() >= keep,
                    non_all.len() <= keep ==> non@.len() == non_all.len(),
                decreases non@.len(),
            {
                proof {
                    let cur = non@;
                    assert(cur.remove(0) =~= non_all.skip(non_all.len() - (cur.len() - 1)));
                }
                non.remove(0);
            }
            proof {
                if non_all.len() <= keep {
                    assert(non@ =~= non_all);
                }
            }
            let ghost sys_v = sys@;
            let ghost non_v = non@;
            self.messages = sys;
            self.messages.append(&mut non);
            proof {
                let spec_sys = all.filter(sys_pred());
                let spec_non = all.filter(non_sys_pred());
                assert(self.messages@ == sys_v + non_v);
                assert(sys_v == spec_sys);
                assert(non_all == spec_non);
                if non_all.len() <= keep {
                    assert(self.messages@ == spec_trimmed(all, self.max_history as int));
                } else {
                    assert(non_v == non_all.skip(non_all.len() - keep));
                    assert(self.messages@ == spec_trimmed(all, self.max_history as int));
                }
            }
        }
    }

    pub fn get_messages(&self) -> (r: &Vec<GroqMessage>)
        ensures
            r@ == self.spec_messages(),
    {
        &self.messages
    }

    pub fn clear(&mut self)
        ensures
            final(self).spec_messages() == Seq::<GroqMessage>::empty(),
            final(self).spec_max_history() == old(self).spec_max_history(),
    {
        self.messages.clear();
    }

    pub fn message_count(&self) -> (r: usize)
        ensures
            r == self.spec_messages().len(),
    {
        self.messages.len()
    }

    /// Puts a system message with the given text at the front.
    pub fn add_system_message(&mut self, content: String)
        ensures
            final(self).spec_messages().len() == old(self).spec_messages().len() + 1,
            final(self).spec_messages()[0].role@ == "system"@,
            final(self).spec_messages()[0].content == MessageContent::Text(content),
            forall|k: int|
                0 <= k < old(self).spec_messages().len() ==> final(self).spec_messages()[k + 1]
                    == old(self).spec_messages()[k],
            final(self).spec_max_history() == old(self).spec_max_history(),
    {
        let system_message = GroqMessage {
            role: String::from_str("system"),
            content: MessageContent::Text(content),
        };
        self.messages.insert(0, system_message);
    }

    /// The most recent message with the user role.
    pub fn get_last_user_message(&self) -> (r: Option<&GroqMessage>)
        ensures
            match r {
                Some(m) => spec_last_with_role(self.spec_messages(), "user"@) matches Some(k) && *m
                    == self.spec_messages()[k],
                None => spec_last_with_role(self.spec_messages(), "user"@) is None,
            },
    {
        self.find_last_with_role("user")
    }

    /// The most recent message with the assistant role.
    pub fn get_last_assistant_message(&self) -> (r: Option<&GroqMessage>)
        ensures
            match r {
                Some(m) => spec_last_with_role(self.spec_messages(), "assistant"@) matches Some(k)
                    && *m == self.spec_messages()[k],
                None => spec_last_with_role(self.spec_messages(), "assistant"@) is None,
            },
    {
        self.find_last_with_role("assistant")
    }

    #[verifier::loop_isolation(false)]
    fn find_last_with_role(&self, role: &str) -> (r: Option<&GroqMessage>)
        ensures
            match r {
                Some(m) => spec_last_with_role(self.spec_messages(), role@) matches Some(k) && *m
                    == self.spec_messages()[k],
                None => spec_last_with_role(self.spec_messages(), role@) is None,
            },
    {
        let want = String::from_str(role);
        let mut i: usize = self.messages.len();
        proof {
            assert(self.spec_messages().take(i as int) =~= self.spec_messages());
        }
        while i > 0
            invariant
                i <= self.spec_messages().len(),
                want@ == role@,
                spec_last_with_role(self.spec_messages(), role@) == spec_last_with_role(
                    self.spec_messages().take(i as int),
                    role@,
                ),
            decreases i,
        {
            proof {
                assert(self.spec_messages().take(i as int).drop_last() =~= self.spec_messages().take(
                    i - 1,
                ));
                assert(self.spec_messages().take(i as int).last() == self.spec_messages()[i - 1]);
            }
            if self.messages[i - 1].role == want {
                return Some(&self.messages[i - 1]);
            }
            i -= 1;
        }
        proof {
            assert(self.spec_messages().take(0) =~= Seq::<GroqMessage>::empty());
        }
        None
    }
}

/// The position of the last message carrying `role`.
pub open spec fn spec_last_with_role(msgs: Seq<GroqMessage>, role: Seq<char>) -> Option<int>
    decreases msgs.len(),
{
    if msgs.len() == 0 {
        None
    } else if msgs.last().role@ == role {
        Some(msgs.len() - 1)
    } else {
        spec_last_with_role(msgs.drop_last(), role)
    }
}

impl Default for Conversation {
    fn default() -> (r: Conversation)
        ensures
            r.spec_messages() == Seq::<GroqMessage>::empty(),
            r.spec_max_history() == 50,
    {
        Conversation::new()
    }
}

} // verus!
