use vstd::prelude::*;

verus! {

/// Sum of a sequence of readings, as a mathematical integer.
pub open spec fn sum_of(s: Seq<i32>) -> int
    decreases s.len(),
{
    if s.len() == 0 {
        0
    } else {
        sum_of(s.drop_last()) + s.last()
    }
}

/// `num / den` rounded to the nearest integer, halves rounded up
/// (floor division of `num + den / 2` by `den`).
pub open spec fn round_half_up(num: int, den: int) -> int {
    (num + den / 2) / den
}

/// The reported mean of a window of readings.
pub open spec fn mean_of(w: Seq<i32>) -> int {
    round_half_up(sum_of(w), w.len() as int)
}

/// The window after one more reading: the reading is appended, and once the
/// window already holds `cap` readings the oldest one leaves it.
pub open spec fn slide(w: Seq<i32>, cap: nat, v: i32) -> Seq<i32> {
    if w.len() < cap {
        w.push(v)
    } else {
        w.drop_first().push(v)
    }
}

/// The window after a run of readings, fed in order.
pub open spec fn feed(w: Seq<i32>, cap: nat, vs: Seq<i32>) -> Seq<i32>
    decreases vs.len(),
{
    if vs.len() == 0 {
        w
    } else {
        slide(feed(w, cap, vs.drop_last()), cap, vs.last())
    }
}

pub proof fn lemma_sum_push(s: Seq<i32>, v: i32)
    ensures
        sum_of(s.push(v)) == sum_of(s) + v,
{
    assert(s.push(v).drop_last() =~= s);
}

pub proof fn lemma_sum_first(s: Seq<i32>)
    requires
        s.len() > 0,
    ensures
        sum_of(s) == s[0] + sum_of(s.drop_first()),
    decreases s.len(),
{
    if s.len() > 1 {
        lemma_sum_first(s.drop_last());
        assert(s.drop_last().drop_first() =~= s.drop_first().drop_last());
        assert(sum_of(s.drop_first()) == sum_of(s.drop_first().drop_last()) + s.last());
    } else {
        assert(sum_of(s.drop_first()) == 0);
        assert(sum_of(s.drop_last()) == 0);
    }
}

pub proof fn lemma_sum_bounds(s: Seq<i32>)
    ensures
        s.len() * i32::MIN <= sum_of(s) <= s.len() * i32::MAX,
    decreases s.len(),
{
    if s.len() > 0 {
        lemma_sum_bounds(s.drop_last());
    }
}

proof fn lemma_sum_constant(s: Seq<i32>, v: i32)
    requires
        forall|i: int| 0 <= i < s.len() ==> s[i] == v,
    ensures
        sum_of(s) == s.len() * v,
    decreases s.len(),
{
    if s.len() > 0 {
        lemma_sum_constant(s.drop_last(), v);
        assert(s.len() * v == (s.len() - 1) * v + v) by (nonlinear_arith);
    }
}

/// The rounded mean lies within the range of the values averaged.
proof fn lemma_round_half_up_bounds(num: int, den: int, lo: int, hi: int)
    requires
        den > 0,
        den * lo <= num <= den * hi,
    ensures
        lo <= round_half_up(num, den) <= hi,
{
    let q = round_half_up(num, den);
    let x = num + den / 2;
    vstd::arithmetic::div_mod::lemma_fundamental_div_mod(x, den);
    assert(x == den * q + x % den);
    assert(0 <= x % den < den);
    assert(lo <= q) by (nonlinear_arith)
        requires
            x == den * q + x % den,
            x % den < den,
            den * lo <= num,
            x >= num,
            den > 0,
    ;
    assert(q <= hi) by (nonlinear_arith)
        requires
            x == den * q + x % den,
            x % den >= 0,
            num <= den * hi,
            x <= num + den / 2,
            den / 2 < den,
            den > 0,
    ;
}

/// Feeding a constant value `v` at least `cap` times fills the window with
/// `v` alone, and the reported mean is then exactly `v`.
pub proof fn lemma_constant_input_converges(w: Seq<i32>, cap: nat, v: i32, k: nat)
    requires
        0 < cap,
        w.len() <= cap,
        cap <= k,
    ensures
        feed(w, cap, Seq::new(k, |i: int| v)) =~= Seq::new(cap, |i: int| v),
        mean_of(feed(w, cap, Seq::new(k, |i: int| v))) == v,
{
    lemma_feed_constant(w, cap, v, k);
    let r = feed(w, cap, Seq::new(k, |i: int| v));
    lemma_sum_constant(r, v);
    let d = cap as int;
    assert(d * v == v * d) by (nonlinear_arith);
    vstd::arithmetic::div_mod::lemma_fundamental_div_mod_converse(d * v + d / 2, d, v as int, d / 2);
}

proof fn lemma_feed_constant(w: Seq<i32>, cap: nat, v: i32, k: nat)
    requires
        0 < cap,
        w.len() <= cap,
    ensures
        ({
            let r = feed(w, cap, Seq::new(k, |i: int| v));
            &&& r.len() == if w.len() + k < cap { (w.len() + k) as int } else { cap as int }
            &&& forall|i: int| 0 <= i < r.len() && r.len() - k <= i ==> r[i] == v
        }),
    decreases k,
{
    if k > 0 {
        let vs = Seq::new(k, |i: int| v);
        let prev_vs = Seq::new((k - 1) as nat, |i: int| v);
        assert(vs.drop_last() =~= prev_vs);
        lemma_feed_constant(w, cap, v, (k - 1) as nat);
        let prev = feed(w, cap, prev_vs);
        assert(feed(w, cap, vs) == slide(prev, cap, v));
    } else {
        assert(Seq::new(k, |i: int| v).len() == 0);
    }
}

/// Fixed-window running mean over the last `N` readings, kept in a ring
/// buffer together with their running sum.
pub struct MovingAvg<const N: usize> {
    interval: usize,
    avoid_div_by_zero: bool,
    nbr_readings: usize,
    sum: i64,
    next: usize,
    readings: [i32; N],
}

impl<const N: usize> MovingAvg<N> {
    /// The readings currently counted, oldest first.
    pub closed spec fn window(&self) -> Seq<i32> {
        if self.nbr_readings < N {
            self.readings@.subrange(0, self.nbr_readings as int)
        } else {
            self.readings@.subrange(self.next as int, N as int) + self.readings@.subrange(
                0,
                self.next as int,
            )
        }
    }

    /// The whole ring buffer, stale slots included.
    pub closed spec fn buffer(&self) -> Seq<i32> {
        self.readings@
    }

    pub closed spec fn avoids_div_by_zero(&self) -> bool {
        self.avoid_div_by_zero
    }

    pub closed spec fn wf(&self) -> bool {
        &&& 0 < N <= u32::MAX
        &&& self.interval == N
        &&& self.nbr_readings <= N
        &&& self.next < N
        &&& self.nbr_readings < N ==> self.next == self.nbr_readings
        &&& self.sum == sum_of(self.window())
    }

    proof fn lemma_window_len(&self)
        requires
            self.wf(),
        ensures
            self.window().len() == self.nbr_readings,
    {
    }

    pub fn new(avoid_div_by_zero: bool) -> (r: Self)
        requires
            0 < N <= u32::MAX,
        ensures
            r.wf(),
            r.window() == Seq::<i32>::empty(),
            r.avoids_div_by_zero() == avoid_div_by_zero,
            r.buffer() == Seq::new(N as nat, |i: int| 0i32),
    {
        let r = MovingAvg {
            interval: N,
            avoid_div_by_zero,
            nbr_readings: 0,
            sum: 0,
            next: 0,
            readings: [0; N],
        };
        assert(r.window() =~= Seq::<i32>::empty());
        assert(r.readings@ =~= Seq::new(N as nat, |i: int| 0i32));
        r
    }

    /// Adds a reading and returns the mean of the window that now holds it.
    pub fn reading(&mut self, new_reading: i32) -> (r: i32)
        requires
            old(self).wf(),
        ensures
            final(self).wf(),
            final(self).window() == slide(old(self).window(), N as nat, new_reading),
            final(self).avoids_div_by_zero() == old(self).avoids_div_by_zero(),
            r == mean_of(final(self).window()),
    {
        let ghost w = self.window();
        proof {
            self.lemma_window_len();
            lemma_sum_bounds(w);
        }
        if self.nbr_readings < self.interval {
            self.nbr_readings = self.nbr_readings + 1;
            self.sum = self.sum + new_reading as i64;
        } else {
            proof {
                lemma_sum_first(w);
                lemma_sum_bounds(w.drop_first());
            }
            self.sum = self.sum - self.readings[self.next] as i64 + new_reading as i64;
        }
        let ghost old_next = self.next;
        self.readings[self.next] = new_reading;
        self.next = (self.next + 1) % self.interval;
        proof {
            let nw = slide(w, N as nat, new_reading);
            let a = old(self).readings@;
            let b = self.readings@;
            assert(b == a.update(old_next as int, new_reading));
            if old(self).nbr_readings < N {
                assert(nw == w.push(new_reading));
                if self.nbr_readings < N {
                    vstd::arithmetic::div_mod::lemma_fundamental_div_mod_converse(
                        old_next + 1,
                        N as int,
                        0,
                        old_next + 1,
                    );
                    assert(self.window() == b.subrange(0, old_next + 1));
                } else {
                    vstd::arithmetic::div_mod::lemma_fundamental_div_mod_converse(
                        N as int,
                        N as int,
                        1,
                        0,
                    );
                    assert(self.window() =~= b.subrange(0, N as int));
                }
                assert(self.window() =~= nw);
            } else {
                assert(nw == w.drop_first().push(new_reading));
                if old_next + 1 < N {
                    vstd::arithmetic::div_mod::lemma_fundamental_div_mod_converse(
                        old_next + 1,
                        N as int,
                        0,
                        old_next + 1,
                    );
                } else {
                    vstd::arithmetic::div_mod::lemma_fundamental_div_mod_converse(
                        N as int,
                        N as int,
                        1,
                        0,
                    );
                }
                assert(self.window() =~= nw);
            }
            lemma_sum_push(if old(self).nbr_readings < N { w } else { w.drop_first() }, new_reading);
            lemma_sum_bounds(nw);
            lemma_round_half_up_bounds(
                sum_of(nw),
                nw.len() as int,
                i32::MIN as int,
                i32::MAX as int,
            );
        }
        let n = self.nbr_readings as i64;
        let q = (self.sum + n / 2).checked_div_euclid(n);
        match q {
            Some(q) => q as i32,
            None => 0,
        }
    }

    /// The mean of the current window; 0 for an empty window where the
    /// average was built to avoid dividing by zero.
    pub fn get_avg(&self) -> (r: i32)
        requires
            self.wf(),
            self.window().len() > 0 || self.avoids_div_by_zero(),
        ensures
            r == if self.window().len() > 0 {
                mean_of(self.window())
            } else {
                0
            },
    {
        proof {
            self.lemma_window_len();
        }
        if self.nbr_readings > 0 || !self.avoid_div_by_zero {
            proof {
                lemma_sum_bounds(self.window());
                lemma_round_half_up_bounds(
                    self.sum as int,
                    self.nbr_readings as int,
                    i32::MIN as int,
                    i32::MAX as int,
                );
            }
            let n = self.nbr_readings as i64;
            match (self.sum + n / 2).checked_div_euclid(n) {
                Some(q) => q as i32,
                None => 0,
            }
        } else {
            0
        }
    }

    /// The mean of the `n_points` most recent readings, or 0 where
    /// `n_points` is 0 or more than the window holds.
    pub fn get_avg_n(&self, n_points: usize) -> (r: i32)
        requires
            self.wf(),
        ensures
            r == if 1 <= n_points <= self.window().len() {
                mean_of(
                    self.window().subrange(
                        self.window().len() - n_points,
                        self.window().len() as int,
                    ),
                )
            } else {
                0
            },
    {
        proof {
            self.lemma_window_len();
        }
        if n_points < 1 || n_points > self.interval || n_points > self.nbr_readings {
            return 0;
        }
        let ghost w = self.window();
        let ghost len = w.len() as int;
        let mut sum: i64 = 0;
        let mut i = self.next;
        let mut j: usize = 0;
        proof {
            vstd::arithmetic::div_mod::lemma_fundamental_div_mod_converse(
                self.next as int + N as int,
                N as int,
                1,
                self.next as int,
            );
        }
        while j < n_points
            invariant
                self.wf(),
                w == self.window(),
                len == self.nbr_readings,
                1 <= n_points <= len,
                j <= n_points,
                i < N,
                i as int == (self.next as int - j as int + N as int) % (N as int),
                sum == sum_of(w.subrange(len - j, len)),
            decreases n_points - j,
        {
            proof {
                let k = len - j - 1;
                let sub = w.subrange(k, len);
                lemma_sum_first(sub);
                assert(sub.drop_first() =~= w.subrange(len - j, len));
                lemma_sum_bounds(w.subrange(len - j, len));
                self.lemma_window_index(j as int);
            }
            i = if i == 0 {
                self.interval - 1
            } else {
                i - 1
            };
            sum = sum + self.readings[i] as i64;
            j = j + 1;
        }
        proof {
            let sub = w.subrange(len - n_points, len);
            lemma_sum_bounds(sub);
            lemma_round_half_up_bounds(sum as int, n_points as int, i32::MIN as int, i32::MAX as int);
        }
        let n = n_points as i64;
        match (sum + n / 2).checked_div_euclid(n) {
            Some(q) => q as i32,
            None => 0,
        }
    }

    /// The `j`-th most recent reading (counting from 0) sits just before
    /// `next` in the ring, `j` slots back.
    proof fn lemma_window_index(&self, j: int)
        requires
            self.wf(),
            0 <= j < self.nbr_readings,
        ensures
            self.window()[self.nbr_readings - 1 - j] == self.readings@[(self.next as int - 1 - j
                + N as int) % (N as int)],
            (self.next as int - 1 - j + N as int) % (N as int) == if (self.next as int - j + N as int)
                % (N as int) == 0 {
                N - 1
            } else {
                (self.next as int - j + N as int) % (N as int) - 1
            },
    {
        let n = N as int;
        let t = self.next as int - j;
        if t > 0 {
            vstd::arithmetic::div_mod::lemma_fundamental_div_mod_converse(t + n, n, 1, t);
            vstd::arithmetic::div_mod::lemma_fundamental_div_mod_converse(t - 1 + n, n, 1, t - 1);
        } else if t == 0 {
            vstd::arithmetic::div_mod::lemma_fundamental_div_mod_converse(n, n, 1, 0);
            vstd::arithmetic::div_mod::lemma_fundamental_div_mod_converse(n - 1, n, 0, n - 1);
        } else {
            vstd::arithmetic::div_mod::lemma_fundamental_div_mod_converse(t + n, n, 0, t + n);
            vstd::arithmetic::div_mod::lemma_fundamental_div_mod_converse(t - 1 + n, n, 0, t - 1 + n);
        }
    }

    /// Forgets every reading; the buffer keeps its stale contents until they
    /// are overwritten.
    pub fn reset(&mut self)
        requires
            old(self).wf(),
        ensures
            final(self).wf(),
            final(self).window() == Seq::<i32>::empty(),
            final(self).buffer() == old(self).buffer(),
            final(self).avoids_div_by_zero() == old(self).avoids_div_by_zero(),
    {
        self.nbr_readings = 0;
        self.sum = 0;
        self.next = 0;
        assert(self.window() =~= Seq::<i32>::empty());
    }

    pub fn get_count(&self) -> (r: usize)
        requires
            self.wf(),
        ensures
            r == self.window().len(),
    {
        self.nbr_readings
    }

    pub fn get_readings(&self) -> (r: &[i32])
        ensures
            r@ == self.buffer(),
    {
        self.readings.as_slice()
    }
}

} // verus!
