//! Which keys went down and which came up between two polls of the keyboard.
use vstd::prelude::*;

verus! {

/// Key names as character sequences.
pub open spec fn names(keys: Seq<String>) -> Seq<Seq<char>> {
    keys.map_values(|k: String| k@)
}

/// Keys of `now` that are not in `before`, in the order of `now`.
pub open spec fn new_in(now: Seq<String>, before: Seq<String>) -> Seq<Seq<char>> {
    names(now).filter(|k: Seq<char>| !names(before).contains(k))
}

/// The keys down at the last poll and at the one before.
#[derive(Debug)]
pub struct KeyStates {
    keys: Vec<String>,
    prev_keys: Vec<String>,
}

/// Whether `key` is among `keys`.
fn contains_key(keys: &Vec<String>, key: &String) -> (r: bool)
    ensures
        r == names(keys@).contains(key@),
{
    let mut i: usize = 0;
    while i < keys.len()
        invariant
            i <= keys@.len(),
            forall|j: int| 0 <= j < i ==> (#[trigger] keys@[j])@ != key@,
        decreases keys@.len() - i,
    {
        if keys[i] == *key {
            proof {
                assert(names(keys@)[i as int] == key@);
            }
            return true;
        }
        i = i + 1;
    }
    proof {
        if names(keys@).contains(key@) {
            let j = choose|j: int| 0 <= j < names(keys@).len() && names(keys@)[j] == key@;
            assert(keys@[j]@ == key@);
        }
    }
    false
}

/// The keys of `now` that are not in `before`.
fn difference(now: &Vec<String>, before: &Vec<String>) -> (r: Vec<String>)
    ensures
        names(r@) == new_in(now@, before@),
{
    let ghost keep = |k: Seq<char>| !names(before@).contains(k);
    let mut out: Vec<String> = Vec::new();
    let mut i: usize = 0;
    assert(names(now@).subrange(0, 0).filter(keep) =~= Seq::<Seq<char>>::empty()) by {
        reveal(Seq::filter);
    }
    assert(names(out@) =~= Seq::<Seq<char>>::empty());
    while i < now.len()
        invariant
            keep == (|k: Seq<char>| !names(before@).contains(k)),
            i <= now@.len(),
            names(out@) == names(now@).subrange(0, i as int).filter(keep),
        decreases now@.len() - i,
    {
        let present = contains_key(before, &now[i]);
        proof {
            assert(names(now@).subrange(0, i + 1) =~= names(now@).subrange(0, i as int).push(
                now@[i as int]@,
            ));
            names(now@).subrange(0, i as int).lemma_filter_push(now@[i as int]@, keep);
        }
        if !present {
            let k = now[i].clone();
            let ghost prev = out@;
            out.push(k);
            proof {
                assert(names(out@) =~= names(prev).push(k@));
            }
        }
        i = i + 1;
    }
    assert(names(now@).subrange(0, now@.len() as int) =~= names(now@));
    out
}

impl KeyStates {
    pub closed spec fn current(&self) -> Seq<String> {
        self.keys@
    }

    pub closed spec fn previous(&self) -> Seq<String> {
        self.prev_keys@
    }

    /// Starts from the keys down now, with none down before.
    pub fn new(keys: Vec<String>) -> (r: Self)
        ensures
            r.current() == keys@,
            r.previous().len() == 0,
    {
        KeyStates { keys, prev_keys: Vec::new() }
    }

    /// Keys down now that were up at the poll before.
    pub fn get_pressed_keys(&self) -> (r: Vec<String>)
        ensures
            names(r@) == new_in(self.current(), self.previous()),
    {
        difference(&self.keys, &self.prev_keys)
    }

    /// Keys up now that were down at the poll before.
    pub fn get_released_keys(&self) -> (r: Vec<String>)
        ensures
            names(r@) == new_in(self.previous(), self.current()),
    {
        difference(&self.prev_keys, &self.keys)
    }

    /// Takes a new poll: the keys down now become the previous keys.
    pub fn update_keys(&mut self, keys: Vec<String>)
        ensures
            final(self).current() == keys@,
            final(self).previous() == old(self).current(),
    {
        let mut incoming = keys;
        std::mem::swap(&mut self.keys, &mut incoming);
        self.prev_keys = incoming;
    }
}

} // verus!
