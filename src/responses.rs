//! A fluent API for programming what a stubbed method returns, and the engine that replays it.
use vstd::prelude::*;

verus! {

/// One programmed outcome as the contracts see it: the value to hand back and how many more
/// times it may be handed back (`None` for without limit).
pub struct Response<R> {
    pub result: R,
    pub remaining: Option<nat>,
}

impl<R> Response<R> {
    /// Whether this response can still answer a call.
    pub open spec fn is_active(self) -> bool {
        match self.remaining {
            None => true,
            Some(n) => n > 0,
        }
    }

    /// This response after it answered one call.
    pub open spec fn consumed(self) -> Response<R> {
        Response {
            result: self.result,
            remaining: match self.remaining {
                None => None,
                Some(n) => Some((n - 1) as nat),
            },
        }
    }
}

/// A response that answers `n` more calls.
pub open spec fn limited<R>(result: R, n: nat) -> Response<R> {
    Response { result, remaining: Some(n) }
}

/// A response that answers every call that reaches it.
pub open spec fn unlimited<R>(result: R) -> Response<R> {
    Response { result, remaining: None }
}

/// Index of the first response at or after `i` that can still answer a call; the length of
/// `s` when there is none.
pub open spec fn first_active_from<R>(s: Seq<Response<R>>, i: int) -> int
    decreases s.len() - i,
{
    if i < 0 || i >= s.len() {
        s.len() as int
    } else if s[i].is_active() {
        i
    } else {
        first_active_from(s, i + 1)
    }
}

/// Index of the response that answers the next call; the length of `s` when none can.
pub open spec fn first_active<R>(s: Seq<Response<R>>) -> int {
    first_active_from(s, 0)
}

/// Whether the next call finds a response, rather than exhausting the sequence.
pub open spec fn can_match<R>(s: Seq<Response<R>>) -> bool {
    0 <= first_active(s) < s.len()
}

/// The value that the next call hands back, where `can_match(s)`.
pub open spec fn next_result<R>(s: Seq<Response<R>>) -> R {
    s[first_active(s)].result
}

/// The sequence after the next call: the response that answered it has used up one call.
pub open spec fn after_match<R>(s: Seq<Response<R>>) -> Seq<Response<R>> {
    let i = first_active(s);
    if i < s.len() {
        s.update(i, s[i].consumed())
    } else {
        s
    }
}

/// The sequence after `k` calls.
pub open spec fn replay<R>(s: Seq<Response<R>>, k: nat) -> Seq<Response<R>>
    decreases k,
{
    if k == 0 {
        s
    } else {
        after_match(replay(s, (k - 1) as nat))
    }
}

/// What the search from `i` finds: an active response with none active between `i` and it.
pub proof fn lemma_first_active_from<R>(s: Seq<Response<R>>, i: int)
    requires
        0 <= i <= s.len(),
    ensures
        i <= first_active_from(s, i) <= s.len(),
        first_active_from(s, i) < s.len() ==> s[first_active_from(s, i)].is_active(),
        forall|j: int| i <= j < first_active_from(s, i) ==> !(#[trigger] s[j]).is_active(),
    decreases s.len() - i,
{
    if i < s.len() && !s[i].is_active() {
        lemma_first_active_from(s, i + 1);
    }
}

/// A call spends one use of the response that answered it and changes nothing else: no
/// response is removed or reordered, and a spent one never answers again.
pub proof fn lemma_match_only_spends<R>(s: Seq<Response<R>>)
    ensures
        after_match(s).len() == s.len(),
        forall|j: int| 0 <= j < s.len() ==> (#[trigger] after_match(s)[j]).result == s[j].result,
        forall|j: int|
            0 <= j < s.len() && !s[j].is_active() ==> !(#[trigger] after_match(s)[j]).is_active(),
        forall|j: int|
            0 <= j < s.len() && s[j].remaining is Some ==> {
                &&& (#[trigger] after_match(s)[j]).remaining is Some
                &&& after_match(s)[j].remaining->Some_0 <= s[j].remaining->Some_0
            },
        can_match(s) ==> after_match(s)[first_active(s)] == s[first_active(s)].consumed(),
{
    lemma_first_active_from(s, 0);
}

/// A call answered by a response without a limit leaves the sequence as it was.
pub proof fn lemma_unlimited_match_keeps_state<R>(s: Seq<Response<R>>)
    requires
        can_match(s),
        s[first_active(s)].remaining is None,
    ensures
        after_match(s) == s,
{
    let i = first_active(s);
    assert(s[i].consumed() == s[i]);
    assert(after_match(s) =~= s);
}

/// A sequence of one response limited to `n` uses hands back its result on each of the first
/// `n` calls and is exhausted after them.
pub proof fn lemma_times_answers_n_times<R>(result: R, n: nat, k: nat)
    requires
        n >= 1,
    ensures
        k < n ==> can_match(replay(seq![limited(result, n)], k)),
        k < n ==> next_result(replay(seq![limited(result, n)], k)) == result,
        !can_match(replay(seq![limited(result, n)], n)),
{
    lemma_replay_single_finite(result, n, k);
    lemma_replay_single_finite(result, n, n);
    reveal_with_fuel(first_active_from, 2);
}

/// After `k <= n` calls, a single response limited to `n` uses has `n - k` of them left.
proof fn lemma_replay_single_finite<R>(result: R, n: nat, k: nat)
    ensures
        k <= n ==> replay(seq![limited(result, n)], k)
            == seq![limited(result, (n - k) as nat)],
    decreases k,
{
    if 0 < k <= n {
        lemma_replay_single_finite(result, n, (k - 1) as nat);
        let prev = seq![limited(result, (n - (k - 1)) as nat)];
        reveal_with_fuel(first_active_from, 2);
        assert(after_match(prev) =~= seq![limited(result, (n - k) as nat)]);
    }
}

/// A sequence of one response programmed once hands back its result on the first call and is
/// exhausted on the second.
pub proof fn lemma_once_answers_once<R>(result: R)
    ensures
        can_match(seq![limited(result, 1)]),
        next_result(seq![limited(result, 1)]) == result,
        !can_match(replay(seq![limited(result, 1)], 1)),
{
    lemma_times_answers_n_times(result, 1, 0);
}

/// A sequence of one response without a limit hands back its result on every call and never
/// changes.
pub proof fn lemma_always_never_exhausts<R>(result: R, k: nat)
    ensures
        replay(seq![unlimited(result)], k)
            == seq![unlimited(result)],
        can_match(replay(seq![unlimited(result)], k)),
        next_result(replay(seq![unlimited(result)], k)) == result,
    decreases k,
{
    let s = seq![unlimited(result)];
    reveal_with_fuel(first_active_from, 2);
    if k > 0 {
        lemma_always_never_exhausts(result, (k - 1) as nat);
        lemma_unlimited_match_keeps_state(s);
    }
}

/// A response programmed once, followed by one without a limit: the first call gets the
/// first result, every later call the second.
pub proof fn lemma_once_then_always<R>(first: R, later: R, k: nat)
    ensures
        can_match(seq![limited(first, 1), unlimited(later)]),
        next_result(seq![limited(first, 1), unlimited(later)]) == first,
        k >= 1 ==> can_match(replay(seq![limited(first, 1), unlimited(later)], k)),
        k >= 1 ==> next_result(replay(seq![limited(first, 1), unlimited(later)], k)) == later,
        k >= 1 ==> replay(seq![limited(first, 1), unlimited(later)], k)
            == seq![limited(first, 0), unlimited(later)],
    decreases k,
{
    let s = seq![limited(first, 1), unlimited(later)];
    let spent = seq![limited(first, 0), unlimited(later)];
    reveal_with_fuel(first_active_from, 3);
    reveal_with_fuel(replay, 2);
    assert(after_match(s) =~= spent);
    if k > 1 {
        lemma_once_then_always(first, later, (k - 1) as nat);
        assert(spent[1].consumed() == spent[1]);
        assert(after_match(spent) =~= spent);
    }
}

/// Two responses programmed once each: the first call gets the first result, the second call
/// the second, and the third finds the sequence exhausted.
pub proof fn lemma_once_then_once<R>(first: R, second: R)
    ensures
        can_match(seq![limited(first, 1), limited(second, 1)]),
        next_result(seq![limited(first, 1), limited(second, 1)]) == first,
        can_match(replay(seq![limited(first, 1), limited(second, 1)], 1)),
        next_result(replay(seq![limited(first, 1), limited(second, 1)], 1)) == second,
        !can_match(replay(seq![limited(first, 1), limited(second, 1)], 2)),
{
    let s = seq![limited(first, 1), limited(second, 1)];
    let one = seq![limited(first, 0), limited(second, 1)];
    let two = seq![limited(first, 0), limited(second, 0)];
    reveal_with_fuel(first_active_from, 3);
    assert(after_match(s) =~= one);
    assert(after_match(one) =~= two);
    reveal_with_fuel(replay, 3);
}

/// One single return value programmed on a stub method.
#[derive(Clone, Debug)]
pub struct Return<R> {
    result: R,
    times: Option<u32>,
}

impl<R> View for Return<R> {
    type V = Response<R>;

    closed spec fn view(&self) -> Response<R> {
        Response {
            result: self.result,
            remaining: match self.times {
                None => None,
                Some(n) => Some(n as nat),
            },
        }
    }
}

impl<R: Clone> Return<R> {
    /// Returns `Some` with a copy of the result if this value answers a call, counting the use.
    pub fn matches(&mut self) -> (r: Option<R>)
        ensures
            old(self)@.is_active() ==> r.is_some() && cloned::<R>(old(self)@.result, r.unwrap())
                && final(self)@ == old(self)@.consumed(),
            !old(self)@.is_active() ==> r.is_none() && final(self)@ == old(self)@,
    {
        match self.times {
            None => Some(self.result.clone()),
            Some(count) if count == 0 => None,
            Some(count) => {
                self.times = Some(count - 1);
                Some(self.result.clone())
            },
        }
    }
}

/// Entry point of the fluent interface for programming stub methods: the value given here is
/// handed back as often as the qualifier called next says.
pub fn will_return<R>(value: R) -> (b: ReturnsBuilder<R>)
    ensures
        b.prior() == Seq::<Response<R>>::empty(),
        b.pending() == value,
{
    ReturnsBuilder { previous: Returns::default(), new_result: value }
}

/// A `Returns` under construction, with one more result that waits for its repeat count.
#[derive(Debug)]
pub struct ReturnsBuilder<R> {
    previous: Returns<R>,
    new_result: R,
}

impl<R> ReturnsBuilder<R> {
    /// The responses programmed before the pending one.
    pub closed spec fn prior(self) -> Seq<Response<R>> {
        self.previous@
    }

    /// The result that waits for its repeat count.
    pub closed spec fn pending(self) -> R {
        self.new_result
    }

    /// Return this result only once.
    pub fn once(self) -> (r: Returns<R>)
        ensures
            r@ == self.prior().push(limited(self.pending(), 1)),
    {
        self.finish(Some(1))
    }

    /// Return this result twice.
    pub fn twice(self) -> (r: Returns<R>)
        ensures
            r@ == self.prior().push(limited(self.pending(), 2)),
    {
        self.finish(Some(2))
    }

    /// Return this result `n` times; a count of zero is a mistake in the test's setup.
    pub fn times(self, n: u32) -> (r: Returns<R>)
        requires
            n >= 1,
        ensures
            r@ == self.prior().push(limited(self.pending(), n as nat)),
    {
        if n == 0 {
            // Reached only from unchecked callers: a response that can never answer is refused.
            return unreached();
        }
        self.finish(Some(n))
    }

    /// Always return this result.
    pub fn always(self) -> (r: Returns<R>)
        ensures
            r@ == self.prior().push(unlimited(self.pending())),
    {
        self.finish(None)
    }

    fn finish(self, times: Option<u32>) -> (r: Returns<R>)
        ensures
            r@ == self.prior().push((Return { result: self.pending(), times })@),
    {
        let ReturnsBuilder { mut previous, new_result } = self;
        previous.return_values.push(Return { result: new_result, times });
        proof {
            assert(previous@ =~= self.prior().push((Return { result: self.pending(), times })@));
        }
        previous
    }
}

/// The responses programmed for one stubbed method, in the order in which they answer calls.
#[derive(Debug)]
pub struct Returns<R> {
    return_values: Vec<Return<R>>,
}

impl<R> View for Returns<R> {
    type V = Seq<Response<R>>;

    closed spec fn view(&self) -> Seq<Response<R>> {
        self.return_values@.map_values(|v: Return<R>| v@)
    }
}

impl<R> Returns<R> {
    /// Start programming one more result after those already in this `Returns`.
    pub fn will_return(self, value: R) -> (b: ReturnsBuilder<R>)
        ensures
            b.prior() == self@,
            b.pending() == value,
    {
        ReturnsBuilder { previous: self, new_result: value }
    }

    /// Whether the next call finds a response.
    pub fn has_match(&self) -> (r: bool)
        ensures
            r == can_match(self@),
    {
        let mut i: usize = 0;
        while i < self.return_values.len()
            invariant
                0 <= i <= self@.len(),
                self@.len() == self.return_values@.len(),
                first_active(self@) == first_active_from(self@, i as int),
            decreases self.return_values@.len() - i,
        {
            let active = match self.return_values[i].times {
                None => true,
                Some(n) => n > 0,
            };
            if active {
                return true;
            }
            i += 1;
        }
        false
    }
}

impl<R: Clone> Returns<R> {
    /// Get the result for a method call from the first response that can still answer one.
    /// Calling it when none can is a mistake in the test's setup.
    pub fn get_match(&mut self) -> (r: R)
        requires
            can_match(old(self)@),
        ensures
            cloned::<R>(next_result(old(self)@), r),
            final(self)@ == after_match(old(self)@),
    {
        let mut i: usize = 0;
        while i < self.return_values.len()
            invariant
                0 <= i <= self@.len(),
                self@.len() == self.return_values@.len(),
                self@ == old(self)@,
                first_active(old(self)@) == first_active_from(self@, i as int),
                can_match(old(self)@),
            decreases self.return_values@.len() - i,
        {
            match self.return_values[i].matches() {
                Some(result) => {
                    proof {
                        assert(self@ =~= after_match(old(self)@));
                    }
                    return result;
                },
                None => {
                    assert(!self@[i as int].is_active());
                    assert(self@ == old(self)@);
                },
            }
            i += 1;
        }
        unreached()
    }
}

impl<R> Default for Returns<R> {
    fn default() -> (r: Self)
        ensures
            r@ == Seq::<Response<R>>::empty(),
    {
        let r = Returns { return_values: Vec::new() };
        proof {
            assert(r@ =~= Seq::<Response<R>>::empty());
        }
        r
    }
}

} // verus!
