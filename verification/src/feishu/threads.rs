//! The threads in which the bot takes part.
use vstd::prelude::*;

use crate::text::same_text;

verus! {

/// A set of threads, each of a chat.
#[derive(Debug)]
pub struct ThreadSet {
    threads: Vec<(String, String)>,
}

spec fn thread_views(threads: Seq<(String, String)>) -> Seq<(Seq<char>, Seq<char>)> {
    threads.map_values(|thread: (String, String)| (thread.0@, thread.1@))
}

impl View for ThreadSet {
    type V = Set<(Seq<char>, Seq<char>)>;

    closed spec fn view(&self) -> Set<(Seq<char>, Seq<char>)> {
        thread_views(self.threads@).to_set()
    }
}

impl ThreadSet {
    /// No threads.
    pub fn new() -> (r: ThreadSet)
        ensures
            r@ == Set::<(Seq<char>, Seq<char>)>::empty(),
    {
        let r = ThreadSet { threads: Vec::new() };
        assert(r@ =~= Set::<(Seq<char>, Seq<char>)>::empty());
        r
    }

    /// Whether the set has that thread.
    pub fn contains(&self, chat_id: &str, thread_id: &str) -> (r: bool)
        ensures
            r == self@.contains((chat_id@, thread_id@)),
    {
        let ghost views = thread_views(self.threads@);
        let mut i: usize = 0;
        while i < self.threads.len()
            invariant
                i <= self.threads@.len(),
                views == thread_views(self.threads@),
                forall|j: int| 0 <= j < i ==> views[j] != (chat_id@, thread_id@),
            decreases self.threads@.len() - i,
        {
            let thread = &self.threads[i];
            assert(views[i as int] == (thread.0@, thread.1@));
            if same_text(thread.0.as_str(), chat_id) && same_text(thread.1.as_str(), thread_id) {
                assert(views.contains(views[i as int]));
                return true;
            }
            i += 1;
        }
        false
    }

    /// Puts a thread into the set.
    pub fn insert(&mut self, chat_id: &str, thread_id: &str)
        ensures
            final(self)@ == old(self)@.insert((chat_id@, thread_id@)),
    {
        let ghost before = thread_views(self.threads@);
        let ghost thread = (chat_id@, thread_id@);
        if !self.contains(chat_id, thread_id) {
            self.threads.push((chat_id.to_owned(), thread_id.to_owned()));
            proof {
                let after = thread_views(self.threads@);
                assert(after =~= before.push(thread));
                assert forall|t: (Seq<char>, Seq<char>)| #[trigger]
                    after.contains(t) == (before.contains(t) || t == thread) by {
                    if before.contains(t) {
                        let i = choose|i: int| 0 <= i < before.len() && before[i] == t;
                        assert(after[i] == t);
                    }
                    if t == thread {
                        assert(after[before.len() as int] == t);
                    }
                }
            }
        }
        assert(self@ =~= old(self)@.insert(thread));
    }
}

} // verus!
