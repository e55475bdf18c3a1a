use vstd::prelude::*;
use crate::numeric::{parse_i32, spec_parse_i32};
use crate::strutil::{spec_split, split_char, str_eq_str};

verus! {

/// Why loading the symbol table failed.
#[derive(Debug, Clone, Copy, PartialEq, Eq, Structural)]
pub enum SymbolTableError {
    /// A data row's id column is not a decimal `i32`.
    InvalidId,
}

/// One row of the master table: a (exchange, symbol, market type) key and
/// its integer id.
#[derive(Debug)]
pub struct SymbolEntry {
    pub exchange: String,
    pub symbol: String,
    pub market_type: String,
    pub id: i32,
}

/// The lookup the stored rows denote: rows are applied in order, so a
/// later row with the same key overrides an earlier one.
pub open spec fn spec_entries_map(s: Seq<SymbolEntry>) -> Map<(Seq<char>, Seq<char>, Seq<char>), i32>
    decreases s.len(),
{
    if s.len() == 0 {
        Map::empty()
    } else {
        spec_entries_map(s.drop_last()).insert(
            (s.last().exchange@, s.last().symbol@, s.last().market_type@),
            s.last().id,
        )
    }
}

/// What loading a sequence of data lines (the header already removed)
/// yields: each line is split on commas; a line with at least four fields
/// contributes `(exchange, symbol, market type) -> id` from its first
/// four columns `id, symbol, exchange, market type`; shorter lines are
/// skipped; a line whose id column does not parse fails the whole load.
pub open spec fn spec_table(lines: Seq<Seq<char>>) -> Option<
    Map<(Seq<char>, Seq<char>, Seq<char>), i32>,
>
    decreases lines.len(),
{
    if lines.len() == 0 {
        Some(Map::empty())
    } else {
        match spec_table(lines.drop_last()) {
            None => None,
            Some(m) => {
                let fields = spec_split(lines.last(), ',');
                if fields.len() >= 4 {
                    match spec_parse_i32(fields[0]) {
                        Some(id) => Some(m.insert((fields[2], fields[1], fields[3]), id)),
                        None => None,
                    }
                } else {
                    Some(m)
                }
            },
        }
    }
}

/// The data rows of the master file: everything after the header line.
pub open spec fn spec_data_lines(lines: Seq<Seq<char>>) -> Seq<Seq<char>> {
    if lines.len() == 0 {
        lines
    } else {
        lines.drop_first()
    }
}

/// A failed load stays failed however many lines follow.
proof fn lemma_table_none_prefix(lines: Seq<Seq<char>>, i: int)
    requires
        0 <= i <= lines.len(),
        spec_table(lines.subrange(0, i)) is None,
    ensures
        spec_table(lines) is None,
    decreases lines.len() - i,
{
    if i < lines.len() {
        assert(lines.subrange(0, i + 1).drop_last() =~= lines.subrange(0, i));
        lemma_table_none_prefix(lines, i + 1);
    } else {
        assert(lines.subrange(0, i) =~= lines);
    }
}

/// The static symbol lookup table, loaded once at process start and
/// injected into whatever serializes candles for storage; read-only
/// thereafter.
pub struct SymbolManager {
    pub entries: Vec<SymbolEntry>,
}

impl View for SymbolManager {
    type V = Map<(Seq<char>, Seq<char>, Seq<char>), i32>;

    open spec fn view(&self) -> Map<(Seq<char>, Seq<char>, Seq<char>), i32> {
        spec_entries_map(self.entries@)
    }
}

impl SymbolManager {
    /// Builds the table from the master file's lines. The first line is a
    /// header and is skipped; the rest load as `spec_table` says, and any
    /// unparsable id column rejects the whole file.
    pub fn new(lines: &Vec<String>) -> (r: Result<SymbolManager, SymbolTableError>)
        ensures
            r matches Ok(m) ==> Some(m@) == spec_table(
                spec_data_lines(lines@.map_values(|l: String| l@)),
            ),
            r is Err <==> spec_table(spec_data_lines(lines@.map_values(|l: String| l@))) is None,
    {
        let mut entries: Vec<SymbolEntry> = Vec::new();
        let n = lines.len();
        if n == 0 {
            return Ok(SymbolManager { entries });
        }
        let ghost data = lines@.map_values(|l: String| l@).drop_first();
        let mut li: usize = 1;
        while li < n
            invariant
                1 <= li <= n,
                n == lines@.len(),
                data == lines@.map_values(|l: String| l@).drop_first(),
                data.len() == n - 1,
                forall|j: int| 0 <= j < data.len() ==> data[j] == lines@[j + 1]@,
                spec_table(data.subrange(0, li - 1)) == Some(spec_entries_map(entries@)),
            decreases n - li,
        {
            let fields = split_char(lines[li].as_str(), ',');
            let ghost sfields = spec_split(data[li - 1], ',');
            proof {
                assert(data.subrange(0, li as int).drop_last() =~= data.subrange(0, li - 1));
                assert(data.subrange(0, li as int).last() == data[li - 1]);
                assert(fields@.map_values(|f: String| f@) == sfields);
                assert(forall|j: int|
                    0 <= j < fields@.len() ==> (#[trigger] fields@[j])@ == sfields[j]);
            }
            if fields.len() >= 4 {
                match parse_i32(fields[0].as_str()) {
                    Some(id) => {
                        let ghost entries0 = entries@;
                        let entry = SymbolEntry {
                            exchange: fields[2].clone(),
                            symbol: fields[1].clone(),
                            market_type: fields[3].clone(),
                            id,
                        };
                        entries.push(entry);
                        proof {
                            assert(entries@.drop_last() =~= entries0);
                            assert(spec_table(data.subrange(0, li as int)) == Some(
                                spec_entries_map(entries@),
                            ));
                        }
                    },
                    None => {
                        proof {
                            lemma_table_none_prefix(data, li as int);
                        }
                        return Err(SymbolTableError::InvalidId);
                    },
                }
            } else {
                proof {
                    assert(spec_table(data.subrange(0, li as int)) == Some(
                        spec_entries_map(entries@),
                    ));
                }
            }
            li = li + 1;
        }
        proof {
            assert(data.subrange(0, n - 1) =~= data);
        }
        Ok(SymbolManager { entries })
    }

    /// Looks a symbol id up by (exchange, symbol, market type); `None`
    /// where the table has no such key.
    pub fn get_symbol_id(&self, exchange: &str, symbol: &str, market_type: &str) -> (r: Option<
        i32,
    >)
        ensures
            self@.contains_key((exchange@, symbol@, market_type@)) ==> r == Some(
                self@[(exchange@, symbol@, market_type@)],
            ),
            !self@.contains_key((exchange@, symbol@, market_type@)) ==> r is None,
    {
        let ghost k = (exchange@, symbol@, market_type@);
        let mut i = self.entries.len();
        proof {
            assert(self.entries@.subrange(0, i as int) =~= self.entries@);
        }
        while i > 0
            invariant
                i <= self.entries@.len(),
                k == (exchange@, symbol@, market_type@),
                self@.contains_key(k) <==> spec_entries_map(
                    self.entries@.subrange(0, i as int),
                ).contains_key(k),
                self@.contains_key(k) ==> self@[k] == spec_entries_map(
                    self.entries@.subrange(0, i as int),
                )[k],
            decreases i,
        {
            let e = &self.entries[i - 1];
            proof {
                assert(self.entries@.subrange(0, i as int).drop_last() =~= self.entries@.subrange(
                    0,
                    i - 1,
                ));
                assert(self.entries@.subrange(0, i as int).last() == self.entries@[i - 1]);
            }
            if str_eq_str(e.exchange.as_str(), exchange) && str_eq_str(e.symbol.as_str(), symbol)
                && str_eq_str(e.market_type.as_str(), market_type) {
                return Some(e.id);
            }
            i = i - 1;
        }
        proof {
            assert(self.entries@.subrange(0, 0) =~= Seq::<SymbolEntry>::empty());
        }
        None
    }
}

} // verus!
