use vstd::prelude::*;
use crate::market_type::MarketType;
use crate::trade::Trade;
use crate::trade_candle::TradeCandle;
use crate::trade_candle_buffer::{spec_candle_of, TradeCandleBuffer};

verus! {

/// The key a buffer is stored under: one buffer per (exchange, market
/// type, symbol, timeframe-seconds).
#[derive(Debug)]
pub struct BufferKey {
    pub exchange: String,
    pub market_type: MarketType,
    pub symbol: String,
    pub timeframe: u32,
}

impl View for BufferKey {
    type V = (Seq<char>, MarketType, Seq<char>, u32);

    open spec fn view(&self) -> (Seq<char>, MarketType, Seq<char>, u32) {
        (self.exchange@, self.market_type, self.symbol@, self.timeframe)
    }
}

/// One stored buffer together with its key.
#[derive(Debug)]
pub struct BufferEntry {
    pub key: BufferKey,
    pub buffer: TradeCandleBuffer,
}

/// The key under which a trade updates the buffer of timeframe `tf`.
pub open spec fn trade_key(t: Trade, tf: u32) -> (Seq<char>, MarketType, Seq<char>, u32) {
    (t.exchange@, t.market_type, t.symbol@, tf)
}

/// No two stored entries share a key.
pub open spec fn keys_unique(s: Seq<BufferEntry>) -> bool {
    forall|i: int, j: int| 0 <= i < j < s.len() ==> s[i].key@ != s[j].key@
}

/// The buffer stored under key `k`, if any.
pub open spec fn spec_buf_at(
    s: Seq<BufferEntry>,
    k: (Seq<char>, MarketType, Seq<char>, u32),
) -> Option<TradeCandleBuffer> {
    if exists|i: int| 0 <= i < s.len() && s[i].key@ == k {
        Some(s[choose|i: int| 0 <= i < s.len() && s[i].key@ == k].buffer)
    } else {
        None
    }
}

/// The buffer a trade leaves under one of its keys: the stored buffer
/// updated in place, or, where none was stored, a fresh buffer stamped
/// with the trade's timestamp and then updated — so the first trade after
/// a flush starts a buffer whose side count is 1.
pub open spec fn spec_apply_trade(b: Option<TradeCandleBuffer>, t: Trade) -> TradeCandleBuffer {
    match b {
        Some(b) => b.spec_update(t),
        None => TradeCandleBuffer::spec_new(t.timestamp_ms).spec_update(t),
    }
}

proof fn lemma_buf_at_index(s: Seq<BufferEntry>, k: (Seq<char>, MarketType, Seq<char>, u32), i: int)
    requires
        keys_unique(s),
        0 <= i < s.len(),
        s[i].key@ == k,
    ensures
        spec_buf_at(s, k) == Some(s[i].buffer),
{
    let w = choose|j: int| 0 <= j < s.len() && s[j].key@ == k;
    if w != i {
        assert(s[w].key@ == s[i].key@);
        assert(false);
    }
}

proof fn lemma_buf_at_absent(s: Seq<BufferEntry>, k: (Seq<char>, MarketType, Seq<char>, u32))
    requires
        forall|i: int| 0 <= i < s.len() ==> (#[trigger] s[i]).key@ != k,
    ensures
        spec_buf_at(s, k) is None,
{
}

/// A stored lookup is unchanged by rewriting one entry under a different
/// key or by appending entries under different keys.
proof fn lemma_buf_at_unchanged(
    pre: Seq<BufferEntry>,
    post: Seq<BufferEntry>,
    k: (Seq<char>, MarketType, Seq<char>, u32),
)
    requires
        keys_unique(pre),
        keys_unique(post),
        post.len() >= pre.len(),
        forall|i: int|
            0 <= i < pre.len() && pre[i].key@ == k ==> #[trigger] post[i] == pre[i],
        forall|i: int|
            0 <= i < post.len() && (i >= pre.len() || pre[i].key@ != k) ==> (#[trigger] post[i]).key@
                != k,
    ensures
        spec_buf_at(post, k) == spec_buf_at(pre, k),
{
    if exists|i: int| 0 <= i < pre.len() && pre[i].key@ == k {
        let i = choose|i: int| 0 <= i < pre.len() && pre[i].key@ == k;
        lemma_buf_at_index(pre, k, i);
        lemma_buf_at_index(post, k, i);
    } else {
        assert(forall|i: int| 0 <= i < pre.len() ==> (#[trigger] pre[i]).key@ != k);
        lemma_buf_at_absent(pre, k);
        lemma_buf_at_absent(post, k);
    }
}

/// The single-writer aggregation engine's state: the configured timeframes
/// and every in-flight buffer. The engine owns the buffers exclusively;
/// trades and flush triggers are handed to it by its caller.
pub struct TradeCandleBuilder {
    pub timeframes: Vec<u32>,
    pub buffers: Vec<BufferEntry>,
}

impl TradeCandleBuilder {
    /// The engine's invariant: the timeframes are a set of positive period
    /// lengths, buffer keys are unique, and every stored buffer is well
    /// formed and tagged with a positive timeframe.
    pub open spec fn wf(self) -> bool {
        &&& forall|i: int, j: int|
            0 <= i < j < self.timeframes@.len() ==> self.timeframes@[i] != self.timeframes@[j]
        &&& forall|i: int| 0 <= i < self.timeframes@.len() ==> self.timeframes@[i] >= 1
        &&& keys_unique(self.buffers@)
        &&& forall|i: int| 0 <= i < self.buffers@.len() ==> (#[trigger] self.buffers@[i]).buffer.wf()
        &&& forall|i: int| 0 <= i < self.buffers@.len() ==> (#[trigger] self.buffers@[i]).key@.3 >= 1
    }

    /// Whether every buffer this trade would update can absorb it without
    /// arithmetic overflow; a buffer not yet stored always can.
    pub open spec fn spec_accepts(self, t: Trade) -> bool {
        forall|tf: u32|
            self.timeframes@.contains(tf) ==> match spec_buf_at(
                self.buffers@,
                #[trigger] trade_key(t, tf),
            ) {
                Some(b) => b.spec_can_update(t),
                None => true,
            }
    }

    /// A new engine for the given set of timeframes, with no buffers yet.
    pub fn new(timeframes: Vec<u32>) -> (r: TradeCandleBuilder)
        requires
            forall|i: int, j: int|
                0 <= i < j < timeframes@.len() ==> timeframes@[i] != timeframes@[j],
            forall|i: int| 0 <= i < timeframes@.len() ==> timeframes@[i] >= 1,
        ensures
            r.wf(),
            r.timeframes@ == timeframes@,
            r.buffers@.len() == 0,
    {
        TradeCandleBuilder { timeframes, buffers: Vec::new() }
    }

    /// Finds the stored entry for this trade's key under timeframe `tf`.
    fn find_buffer_index(&self, trade: &Trade, tf: u32) -> (r: Option<usize>)
        ensures
            match r {
                Some(at) => at < self.buffers@.len() && self.buffers@[at as int].key@ == trade_key(
                    *trade,
                    tf,
                ),
                None => forall|i: int|
                    0 <= i < self.buffers@.len() ==> (#[trigger] self.buffers@[i]).key@
                        != trade_key(*trade, tf),
            },
    {
        let n = self.buffers.len();
        for j in 0..n
            invariant
                n == self.buffers@.len(),
                forall|i: int|
                    0 <= i < j ==> (#[trigger] self.buffers@[i]).key@ != trade_key(*trade, tf),
        {
            let e = &self.buffers[j];
            if e.key.timeframe == tf && e.key.market_type == trade.market_type && e.key.exchange
                == trade.exchange && e.key.symbol == trade.symbol {
                return Some(j);
            }
        }
        None
    }

    /// Checks `spec_accepts` at run time, so a caller can establish
    /// `process_trade`'s precondition before handing a trade over.
    pub fn accepts_trade(&self, trade: &Trade) -> (r: bool)
        requires
            self.wf(),
        ensures
            r == self.spec_accepts(*trade),
    {
        let n = self.timeframes.len();
        for idx in 0..n
            invariant
                self.wf(),
                n == self.timeframes@.len(),
                forall|k: int|
                    0 <= k < idx ==> match spec_buf_at(
                        self.buffers@,
                        trade_key(*trade, #[trigger] self.timeframes@[k]),
                    ) {
                        Some(b) => b.spec_can_update(*trade),
                        None => true,
                    },
        {
            let tf = self.timeframes[idx];
            match self.find_buffer_index(trade, tf) {
                Some(at) => {
                    proof {
                        lemma_buf_at_index(self.buffers@, trade_key(*trade, tf), at as int);
                    }
                    if !self.buffers[at].buffer.can_update(trade) {
                        proof {
                            assert(self.timeframes@.contains(tf));
                            assert(!self.spec_accepts(*trade));
                        }
                        return false;
                    }
                },
                None => {
                    proof {
                        lemma_buf_at_absent(self.buffers@, trade_key(*trade, tf));
                    }
                },
            }
        }
        proof {
            assert forall|tf: u32| self.timeframes@.contains(tf) implies match spec_buf_at(
                self.buffers@,
                #[trigger] trade_key(*trade, tf),
            ) {
                Some(b) => b.spec_can_update(*trade),
                None => true,
            } by {
                let k = choose|k: int| 0 <= k < self.timeframes@.len() && self.timeframes@[k] == tf;
                assert(self.timeframes@[k] == tf);
            }
        }
        true
    }

    /// Feeds one trade to the engine: the buffer of **every** configured
    /// timeframe under the trade's (exchange, market type, symbol) is
    /// updated — created first, stamped with the trade's timestamp, where
    /// none existed. Buffers under every other key are untouched.
    pub fn process_trade(&mut self, trade: &Trade)
        requires
            old(self).wf(),
            old(self).spec_accepts(*trade),
        ensures
            final(self).wf(),
            final(self).timeframes@ == old(self).timeframes@,
            forall|tf: u32|
                old(self).timeframes@.contains(tf) ==> spec_buf_at(
                    final(self).buffers@,
                    #[trigger] trade_key(*trade, tf),
                ) == Some(
                    spec_apply_trade(
                        spec_buf_at(old(self).buffers@, trade_key(*trade, tf)),
                        *trade,
                    ),
                ),
            forall|k: (Seq<char>, MarketType, Seq<char>, u32)|
                (forall|tf: u32|
                    old(self).timeframes@.contains(tf) ==> k != #[trigger] trade_key(*trade, tf))
                    ==> #[trigger] spec_buf_at(final(self).buffers@, k) == spec_buf_at(
                    old(self).buffers@,
                    k,
                ),
    {
        let n = self.timeframes.len();
        for idx in 0..n
            invariant
                self.wf(),
                n == self.timeframes@.len(),
                self.timeframes@ == old(self).timeframes@,
                old(self).spec_accepts(*trade),
                forall|k: int|
                    0 <= k < idx ==> spec_buf_at(
                        self.buffers@,
                        trade_key(*trade, #[trigger] self.timeframes@[k]),
                    ) == Some(
                        spec_apply_trade(
                            spec_buf_at(old(self).buffers@, trade_key(*trade, self.timeframes@[k])),
                            *trade,
                        ),
                    ),
                forall|k: (Seq<char>, MarketType, Seq<char>, u32)|
                    (forall|j: int|
                        0 <= j < idx ==> k != trade_key(*trade, #[trigger] self.timeframes@[j]))
                        ==> #[trigger] spec_buf_at(self.buffers@, k) == spec_buf_at(
                        old(self).buffers@,
                        k,
                    ),
        {
            let tf = self.timeframes[idx];
            let ghost key = trade_key(*trade, tf);
            let ghost pre = self.buffers@;
            proof {
                assert(old(self).timeframes@.contains(tf));
                // Timeframes are distinct, so this key is none of the keys
                // already processed and its buffer still holds what it held
                // before the loop started.
                assert forall|j: int| 0 <= j < idx implies key != trade_key(
                    *trade,
                    #[trigger] self.timeframes@[j],
                ) by {
                    assert(self.timeframes@[j] != tf);
                }
                assert(spec_buf_at(pre, key) == spec_buf_at(old(self).buffers@, key));
            }
            match self.find_buffer_index(trade, tf) {
                Some(at) => {
                    proof {
                        lemma_buf_at_index(pre, key, at as int);
                    }
                    let e = &mut self.buffers[at];
                    e.buffer.update(trade);
                    proof {
                        assert(self.buffers@[at as int].key@ == key);
                        assert(keys_unique(self.buffers@));
                        lemma_buf_at_index(self.buffers@, key, at as int);
                        assert forall|k2: (Seq<char>, MarketType, Seq<char>, u32)| k2
                            != key implies #[trigger] spec_buf_at(self.buffers@, k2) == spec_buf_at(
                            pre,
                            k2,
                        ) by {
                            lemma_buf_at_unchanged(pre, self.buffers@, k2);
                        }
                    }
                },
                None => {
                    proof {
                        lemma_buf_at_absent(pre, key);
                        crate::trade_candle_buffer::lemma_fresh_can_update(*trade);
                    }
                    let mut buffer = TradeCandleBuffer::new(trade.timestamp_ms);
                    buffer.update(trade);
                    let key_e = BufferKey {
                        exchange: trade.exchange.clone(),
                        market_type: trade.market_type,
                        symbol: trade.symbol.clone(),
                        timeframe: tf,
                    };
                    self.buffers.push(BufferEntry { key: key_e, buffer });
                    proof {
                        assert(self.buffers@[pre.len() as int].key@ == key);
                        assert(keys_unique(self.buffers@));
                        lemma_buf_at_index(self.buffers@, key, pre.len() as int);
                        assert forall|k2: (Seq<char>, MarketType, Seq<char>, u32)| k2
                            != key implies #[trigger] spec_buf_at(self.buffers@, k2) == spec_buf_at(
                            pre,
                            k2,
                        ) by {
                            lemma_buf_at_unchanged(pre, self.buffers@, k2);
                        }
                    }
                },
            }
            proof {
                assert forall|k: int| 0 <= k < idx + 1 implies spec_buf_at(
                    self.buffers@,
                    trade_key(*trade, #[trigger] self.timeframes@[k]),
                ) == Some(
                    spec_apply_trade(
                        spec_buf_at(old(self).buffers@, trade_key(*trade, self.timeframes@[k])),
                        *trade,
                    ),
                ) by {
                    if k < idx {
                        assert(self.timeframes@[k] != tf);
                        assert(trade_key(*trade, self.timeframes@[k]) != key);
                    }
                }
            }
        }
    }

    /// The bucket timestamp a candle of `timeframe_seconds` gets for a
    /// buffer whose first trade arrived at `timestamp_ms`.
    pub fn get_candle_timestamp(&self, timestamp_ms: u64, timeframe_seconds: u32) -> (r: u64)
        requires
            timeframe_seconds >= 1,
        ensures
            r == crate::trade_candle::spec_bucket_timestamp_ms(timestamp_ms, timeframe_seconds),
    {
        crate::trade_candle_buffer::bucket_timestamp_ms(timestamp_ms, timeframe_seconds)
    }

    /// The stored buffer under a key, if any; read-only, for inspection.
    pub fn get_buffer(
        &self,
        exchange: &str,
        market_type: MarketType,
        symbol: &str,
        timeframe: u32,
    ) -> (r: Option<&TradeCandleBuffer>)
        requires
            self.wf(),
        ensures
            match r {
                Some(b) => spec_buf_at(self.buffers@, (exchange@, market_type, symbol@, timeframe))
                    == Some(*b),
                None => spec_buf_at(self.buffers@, (exchange@, market_type, symbol@, timeframe))
                    is None,
            },
    {
        let ghost k = (exchange@, market_type, symbol@, timeframe);
        let n = self.buffers.len();
        for j in 0..n
            invariant
                self.wf(),
                n == self.buffers@.len(),
                k == (exchange@, market_type, symbol@, timeframe),
                forall|i: int| 0 <= i < j ==> (#[trigger] self.buffers@[i]).key@ != k,
        {
            let e = &self.buffers[j];
            if e.key.timeframe == timeframe && e.key.market_type == market_type
                && crate::strutil::str_eq_str(e.key.exchange.as_str(), exchange)
                && crate::strutil::str_eq_str(e.key.symbol.as_str(), symbol) {
                proof {
                    lemma_buf_at_index(self.buffers@, k, j as int);
                }
                return Some(&self.buffers[j].buffer);
            }
        }
        proof {
            lemma_buf_at_absent(self.buffers@, k);
        }
        None
    }

    /// Flushes timeframe `timeframe`: **every** buffer tagged with it is
    /// removed, and exactly those that saw at least one execution are
    /// snapshotted — in storage order — as the returned candles. Buffers
    /// of other timeframes are untouched; the aggregation window for this
    /// timeframe restarts empty.
    pub fn flush_candles_for_timeframe(&mut self, timeframe: u32) -> (out: Vec<TradeCandle>)
        requires
            old(self).wf(),
            timeframe >= 1,
        ensures
            final(self).wf(),
            final(self).timeframes@ == old(self).timeframes@,
            final(self).buffers@ == old(self).buffers@.filter(keeps_pred(timeframe)),
            out@.len() == spec_emitted(old(self).buffers@, timeframe).len(),
            forall|i: int|
                0 <= i < out@.len() ==> spec_candle_of(
                    #[trigger] out@[i],
                    spec_emitted(old(self).buffers@, timeframe)[i].buffer,
                    spec_emitted(old(self).buffers@, timeframe)[i].key@.0,
                    spec_emitted(old(self).buffers@, timeframe)[i].key@.1,
                    spec_emitted(old(self).buffers@, timeframe)[i].key@.2,
                    timeframe,
                ),
    {
        let n = self.buffers.len();
        let mut kept: Vec<BufferEntry> = Vec::new();
        let mut out: Vec<TradeCandle> = Vec::new();
        for i in 0..n
            invariant
                self.wf(),
                timeframe >= 1,
                n == self.buffers@.len(),
                kept@ == self.buffers@.subrange(0, i as int).filter(keeps_pred(timeframe)),
                out@.len() == spec_emitted(self.buffers@.subrange(0, i as int), timeframe).len(),
                forall|j: int|
                    0 <= j < out@.len() ==> spec_candle_of(
                        #[trigger] out@[j],
                        spec_emitted(self.buffers@.subrange(0, i as int), timeframe)[j].buffer,
                        spec_emitted(self.buffers@.subrange(0, i as int), timeframe)[j].key@.0,
                        spec_emitted(self.buffers@.subrange(0, i as int), timeframe)[j].key@.1,
                        spec_emitted(self.buffers@.subrange(0, i as int), timeframe)[j].key@.2,
                        timeframe,
                    ),
        {
            let ghost prefix = self.buffers@.subrange(0, i as int);
            proof {
                assert(self.buffers@.subrange(0, i + 1) =~= prefix.push(self.buffers@[i as int]));
                lemma_filter_push(prefix, self.buffers@[i as int], keeps_pred(timeframe));
                lemma_filter_push(prefix, self.buffers@[i as int], emits_pred(timeframe));
            }
            let e = &self.buffers[i];
            if e.key.timeframe == timeframe {
                if e.buffer.ask.count > 0 || e.buffer.bid.count > 0 {
                    let c = e.buffer.to_trade_candle(
                        e.key.exchange.clone(),
                        e.key.market_type,
                        e.key.symbol.clone(),
                        timeframe,
                    );
                    out.push(c);
                    proof {
                        let entry = self.buffers@[i as int];
                        assert(entry.buffer.has_data());
                        assert(spec_emitted(self.buffers@.subrange(0, i as int + 1), timeframe)
                            =~= spec_emitted(prefix, timeframe).push(entry));
                        assert(out@.last() == c);
                        assert(spec_candle_of(
                            c,
                            entry.buffer,
                            entry.key@.0,
                            entry.key@.1,
                            entry.key@.2,
                            timeframe,
                        ));
                    }
                } else {
                    proof {
                        let entry = self.buffers@[i as int];
                        assert(!entry.buffer.has_data());
                        assert(spec_emitted(self.buffers@.subrange(0, i as int + 1), timeframe)
                            =~= spec_emitted(prefix, timeframe));
                    }
                }
            } else {
                kept.push(
                    BufferEntry {
                        key: BufferKey {
                            exchange: e.key.exchange.clone(),
                            market_type: e.key.market_type,
                            symbol: e.key.symbol.clone(),
                            timeframe: e.key.timeframe,
                        },
                        buffer: e.buffer,
                    },
                );
                proof {
                    assert(kept@.last() == self.buffers@[i as int]);
                    assert((keeps_pred(timeframe))(self.buffers@[i as int]));
                    assert(kept@ =~= prefix.filter(keeps_pred(timeframe)).push(
                        self.buffers@[i as int],
                    ));
                }
            }
        }
        proof {
            assert(self.buffers@.subrange(0, n as int) =~= self.buffers@);
            lemma_filter_keys_unique(self.buffers@, keeps_pred(timeframe));
        }
        self.buffers = kept;
        out
    }
}

/// The predicate selecting the entries that survive a flush of
/// `timeframe`: those stored under any other timeframe.
pub open spec fn keeps_pred(timeframe: u32) -> spec_fn(BufferEntry) -> bool {
    |e: BufferEntry| e.key@.3 != timeframe
}

/// The predicate selecting the buffers a flush of `timeframe` snapshots:
/// tagged with the timeframe and holding at least one execution.
pub open spec fn emits_pred(timeframe: u32) -> spec_fn(BufferEntry) -> bool {
    |e: BufferEntry| e.key@.3 == timeframe && e.buffer.has_data()
}

/// The entries a flush of `timeframe` snapshots: those tagged with the
/// timeframe that saw at least one execution, in storage order.
pub open spec fn spec_emitted(s: Seq<BufferEntry>, timeframe: u32) -> Seq<BufferEntry> {
    s.filter(emits_pred(timeframe))
}

proof fn lemma_filter_push<A>(s: Seq<A>, e: A, pred: spec_fn(A) -> bool)
    ensures
        s.push(e).filter(pred) == (if pred(e) {
            s.filter(pred).push(e)
        } else {
            s.filter(pred)
        }),
{
    reveal(Seq::filter);
    assert(s.push(e).drop_last() =~= s);
    assert(s.push(e).last() == e);
}

fn contains_u32(v: &Vec<u32>, x: u32) -> (r: bool)
    ensures
        r == v@.contains(x),
{
    let n = v.len();
    for i in 0..n
        invariant
            n == v@.len(),
            forall|j: int| 0 <= j < i ==> v@[j] != x,
    {
        if v[i] == x {
            return true;
        }
    }
    false
}

/// Turns any configured timeframe list into the set the engine's
/// constructor requires: duplicates and non-positive entries are dropped,
/// first occurrences kept in order, nothing else added.
pub fn sanitize_timeframes(input: &Vec<u32>) -> (r: Vec<u32>)
    ensures
        forall|i: int, j: int| 0 <= i < j < r@.len() ==> r@[i] != r@[j],
        forall|i: int| 0 <= i < r@.len() ==> r@[i] >= 1,
        forall|i: int| 0 <= i < r@.len() ==> input@.contains(#[trigger] r@[i]),
        forall|i: int|
            0 <= i < input@.len() && (#[trigger] input@[i]) >= 1 ==> r@.contains(input@[i]),
{
    let mut out: Vec<u32> = Vec::new();
    let n = input.len();
    for i in 0..n
        invariant
            n == input@.len(),
            forall|a: int, b: int| 0 <= a < b < out@.len() ==> out@[a] != out@[b],
            forall|a: int| 0 <= a < out@.len() ==> out@[a] >= 1,
            forall|a: int| 0 <= a < out@.len() ==> input@.contains(#[trigger] out@[a]),
            forall|a: int|
                0 <= a < i && (#[trigger] input@[a]) >= 1 ==> out@.contains(input@[a]),
    {
        let tf = input[i];
        if tf >= 1 && !contains_u32(&out, tf) {
            let ghost pre = out@;
            out.push(tf);
            proof {
                assert(input@[i as int] == tf);
                assert(input@.contains(tf));
                assert(out@.last() == tf);
                assert forall|a: int|
                    0 <= a < i + 1 && (#[trigger] input@[a]) >= 1 implies out@.contains(
                    input@[a],
                ) by {
                    if a < i {
                        let w = choose|w: int| 0 <= w < pre.len() && pre[w] == input@[a];
                        assert(out@[w] == input@[a]);
                    } else {
                        assert(out@[out@.len() - 1] == input@[a]);
                    }
                }
            }
        } else {
            proof {
                if tf >= 1 {
                    assert(out@.contains(tf));
                }
            }
        }
    }
    out
}

/// Law: a flush emits no candle for a silent buffer. Every snapshotted
/// entry is tagged with the flushed timeframe and has an execution on some
/// side; conversely, every stored buffer of that timeframe that has data
/// is snapshotted.
pub proof fn lemma_flush_emits_exactly_nonempty(s: Seq<BufferEntry>, timeframe: u32)
    ensures
        forall|i: int|
            0 <= i < spec_emitted(s, timeframe).len() ==> (#[trigger] spec_emitted(s, timeframe)[i]).buffer.has_data()
                && spec_emitted(s, timeframe)[i].key@.3 == timeframe,
        forall|i: int|
            0 <= i < s.len() && (#[trigger] s[i]).key@.3 == timeframe && s[i].buffer.has_data()
                ==> spec_emitted(s, timeframe).contains(s[i]),
{
    let pred = emits_pred(timeframe);
    assert forall|i: int| 0 <= i < s.filter(pred).len() implies (#[trigger] s.filter(pred)[i]).key@.3
        == timeframe && s.filter(pred)[i].buffer.has_data() by {
        s.lemma_filter_pred(pred, i);
    }
    assert forall|i: int|
        0 <= i < s.len() && (#[trigger] s[i]).key@.3 == timeframe
            && s[i].buffer.has_data() implies s.filter(pred).contains(s[i]) by {
        s.lemma_filter_contains(pred, i);
    }
}

/// Law: flushing a timeframe removes every buffer stored under it,
/// emitted or not; the next trade for a flushed key therefore finds no
/// buffer and starts a fresh one, whose updated side has count 1 and
/// which carries that trade's timestamp.
pub proof fn lemma_flush_restarts_timeframe(
    s: Seq<BufferEntry>,
    timeframe: u32,
    k: (Seq<char>, MarketType, Seq<char>, u32),
    t: Trade,
)
    requires
        k.3 == timeframe,
    ensures
        spec_buf_at(s.filter(keeps_pred(timeframe)), k) is None,
        spec_apply_trade(spec_buf_at(s.filter(keeps_pred(timeframe)), k), t).side(t.side).count
            == 1,
        spec_apply_trade(spec_buf_at(s.filter(keeps_pred(timeframe)), k), t).timestamp_ms
            == t.timestamp_ms,
{
    let pred = keeps_pred(timeframe);
    let f = s.filter(pred);
    assert forall|i: int| 0 <= i < f.len() implies (#[trigger] f[i]).key@ != k by {
        s.lemma_filter_pred(pred, i);
    }
    lemma_buf_at_absent(f, k);
}

/// Law: a flush leaves every buffer of any other timeframe exactly where
/// it was — looking a key up after the flush answers as before whenever
/// the key's timeframe is not the flushed one.
pub proof fn lemma_flush_keeps_other_timeframes(
    s: Seq<BufferEntry>,
    timeframe: u32,
    k: (Seq<char>, MarketType, Seq<char>, u32),
)
    requires
        keys_unique(s),
        k.3 != timeframe,
    ensures
        spec_buf_at(s.filter(keeps_pred(timeframe)), k) == spec_buf_at(s, k),
{
    let pred = keeps_pred(timeframe);
    let f = s.filter(pred);
    lemma_filter_keys_unique(s, pred);
    if exists|i: int| 0 <= i < s.len() && s[i].key@ == k {
        let i = choose|i: int| 0 <= i < s.len() && s[i].key@ == k;
        lemma_buf_at_index(s, k, i);
        s.lemma_filter_contains(pred, i);
        let j = choose|j: int| 0 <= j < f.len() && f[j] == s[i];
        lemma_buf_at_index(f, k, j);
    } else {
        assert forall|j: int| 0 <= j < f.len() implies (#[trigger] f[j]).key@ != k by {
            let i = choose|i: int| 0 <= i < s.len() && f[j] == s[i];
            assert(s[i].key@ != k);
        }
        lemma_buf_at_absent(f, k);
        lemma_buf_at_absent(s, k);
    }
}

/// Law: one trade is visible in the buffer of every configured timeframe.
/// Together with `process_trade`'s contract — which applies
/// `spec_apply_trade` under each configured timeframe's key — this pins
/// how each of those buffers moves: the trade's side gains one execution,
/// its quantity, and its weighted price.
pub proof fn lemma_trade_updates_all_timeframes(b: Option<TradeCandleBuffer>, t: Trade)
    requires
        match b {
            Some(b0) => b0.spec_can_update(t),
            None => true,
        },
    ensures
        spec_apply_trade(b, t).side(t.side).count == (match b {
            Some(b0) => b0.side(t.side).count + 1,
            None => 1,
        }),
        spec_apply_trade(b, t).side(t.side).volume == (match b {
            Some(b0) => b0.side(t.side).volume,
            None => 0,
        }) + t.quantity,
        spec_apply_trade(b, t).side(t.side).pq == (match b {
            Some(b0) => b0.side(t.side).pq,
            None => 0,
        }) + t.price * t.quantity,
{
    match b {
        Some(_) => {},
        None => {
            crate::trade_candle_buffer::lemma_fresh_can_update(t);
        },
    }
}

/// Filtering keeps every element a member of the original sequence, so
/// unique keys stay unique.
proof fn lemma_filter_keys_unique(s: Seq<BufferEntry>, pred: spec_fn(BufferEntry) -> bool)
    requires
        keys_unique(s),
    ensures
        keys_unique(s.filter(pred)),
        forall|i: int|
            0 <= i < s.filter(pred).len() ==> exists|j: int|
                0 <= j < s.len() && #[trigger] s.filter(pred)[i] == s[j],
    decreases s.len(),
{
    reveal(Seq::filter);
    if s.len() > 0 {
        let sub = s.drop_last();
        assert(keys_unique(sub));
        lemma_filter_keys_unique(sub, pred);
        let fsub = sub.filter(pred);
        assert forall|i: int|
            0 <= i < fsub.len() implies exists|j: int|
            0 <= j < s.len() && #[trigger] fsub[i] == s[j] by {
            let j = choose|j: int| 0 <= j < sub.len() && fsub[i] == sub[j];
            assert(s[j] == sub[j]);
        }
        if pred(s.last()) {
            let f = s.filter(pred);
            assert(f == fsub.push(s.last()));
            assert forall|i1: int, i2: int| 0 <= i1 < i2 < f.len() implies f[i1].key@
                != f[i2].key@ by {
                if i2 == f.len() - 1 {
                    let j = choose|j: int| 0 <= j < sub.len() && f[i1] == sub[j];
                    assert(s[j] == sub[j]);
                    assert(s[j].key@ != s[s.len() - 1].key@);
                }
            }
        }
    }
}

} // verus!
