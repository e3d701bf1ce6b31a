use vstd::prelude::*;

verus! {

/// What a tokenizer is configured with, as plain sequences of characters.
pub struct TokenizerSpec {
    pub prefix: Seq<char>,
    pub mention: Option<Seq<char>>,
    pub delimiters: Seq<Seq<char>>,
    pub max_depth: nat,
}

/// The result of tokenizing, as plain sequences of characters.
pub enum TokensSpec {
    NoMatch,
    Matched { path: Seq<Seq<char>>, starts: Seq<int>, tail: Seq<char> },
}

pub open spec fn starts_with(s: Seq<char>, p: Seq<char>) -> bool {
    p.len() <= s.len() && s.subrange(0, p.len() as int) == p
}

/// A non-empty delimiter `d` stands in `s` at position `i`.
pub open spec fn occurs_at(s: Seq<char>, d: Seq<char>, i: int) -> bool {
    &&& d.len() > 0
    &&& 0 <= i
    &&& i + d.len() <= s.len()
    &&& s.subrange(i, i + d.len()) == d
}

/// The first delimiter, in list order from index `k` on, that stands at position `i`.
pub open spec fn delimiter_at(s: Seq<char>, ds: Seq<Seq<char>>, i: int, k: int) -> Option<int>
    decreases ds.len() - k,
{
    if k < 0 || k >= ds.len() {
        None
    } else if occurs_at(s, ds[k], i) {
        Some(k)
    } else {
        delimiter_at(s, ds, i, k + 1)
    }
}

/// The earliest position at or after `i` where some delimiter stands, with the
/// index of the first listed delimiter that stands there.
pub open spec fn first_split_from(s: Seq<char>, ds: Seq<Seq<char>>, i: int) -> Option<(int, int)>
    decreases s.len() - i,
{
    if i < 0 || i >= s.len() {
        None
    } else {
        match delimiter_at(s, ds, i, 0) {
            Some(k) => Some((i, k)),
            None => first_split_from(s, ds, i + 1),
        }
    }
}

/// Splits `s` from position `pos` into at most `depth` path segments, the
/// position where each segment starts, and the remaining argument tail.
pub open spec fn split_from(s: Seq<char>, ds: Seq<Seq<char>>, pos: int, depth: nat) -> (
    Seq<Seq<char>>,
    Seq<int>,
    Seq<char>,
)
    decreases depth,
{
    if depth == 0 || pos >= s.len() {
        (Seq::empty(), Seq::empty(), s.subrange(pos, s.len() as int))
    } else {
        match first_split_from(s, ds, pos) {
            None => (seq![s.subrange(pos, s.len() as int)], seq![pos], Seq::empty()),
            Some((i, k)) => {
                let rest = split_from(s, ds, i + ds[k].len(), (depth - 1) as nat);
                (seq![s.subrange(pos, i)] + rest.0, seq![pos] + rest.1, rest.2)
            },
        }
    }
}

proof fn lemma_delimiter_at_occurs(s: Seq<char>, ds: Seq<Seq<char>>, i: int, k0: int, k: int)
    requires
        delimiter_at(s, ds, i, k0) == Some(k),
    ensures
        0 <= k < ds.len(),
        occurs_at(s, ds[k], i),
    decreases ds.len() - k0,
{
    if k0 >= 0 && k0 < ds.len() && !occurs_at(s, ds[k0], i) {
        lemma_delimiter_at_occurs(s, ds, i, k0 + 1, k);
    }
}

proof fn lemma_first_split_occurs(s: Seq<char>, ds: Seq<Seq<char>>, p: int, i: int, k: int)
    requires
        first_split_from(s, ds, p) == Some((i, k)),
    ensures
        0 <= k < ds.len(),
        occurs_at(s, ds[k], i),
    decreases s.len() - p,
{
    if 0 <= p < s.len() {
        match delimiter_at(s, ds, p, 0) {
            Some(k1) => lemma_delimiter_at_occurs(s, ds, p, 0, k),
            None => lemma_first_split_occurs(s, ds, p + 1, i, k),
        }
    }
}

/// The first position at or after `i` that does not hold a space.
pub open spec fn skip_spaces(s: Seq<char>, i: int) -> int
    decreases s.len() - i,
{
    if 0 <= i < s.len() && s[i] == ' ' {
        skip_spaces(s, i + 1)
    } else {
        i
    }
}

/// Where the command body starts: after the prefix, or after the mention and
/// the spaces that follow it. The prefix is tried first.
pub open spec fn body_start(s: Seq<char>, cfg: TokenizerSpec) -> Option<int> {
    if starts_with(s, cfg.prefix) {
        Some(cfg.prefix.len() as int)
    } else {
        match cfg.mention {
            Some(m) => if starts_with(s, m) {
                Some(skip_spaces(s, m.len() as int))
            } else {
                None
            },
            None => None,
        }
    }
}

pub open spec fn tokenize_spec(s: Seq<char>, cfg: TokenizerSpec) -> TokensSpec {
    match body_start(s, cfg) {
        None => TokensSpec::NoMatch,
        Some(b) => {
            let (path, starts, tail) = split_from(s, cfg.delimiters, b, cfg.max_depth);
            if path.len() == 0 {
                TokensSpec::NoMatch
            } else {
                TokensSpec::Matched { path, starts, tail }
            }
        },
    }
}

/// Text that starts with neither the prefix nor the mention is not a command.
pub proof fn lemma_unprefixed_text_is_no_match(s: Seq<char>, cfg: TokenizerSpec)
    requires
        !starts_with(s, cfg.prefix),
        match cfg.mention {
            Some(m) => !starts_with(s, m),
            None => true,
        },
    ensures
        tokenize_spec(s, cfg) == TokensSpec::NoMatch,
{
}

/// How message text is recognised as a command line.
pub struct TokenizerConfig {
    pub prefix: Vec<char>,
    pub mention: Option<Vec<char>>,
    pub delimiters: Vec<Vec<char>>,
    pub max_depth: usize,
}

impl TokenizerConfig {
    pub open spec fn view(&self) -> TokenizerSpec {
        TokenizerSpec {
            prefix: self.prefix@,
            mention: match self.mention {
                Some(m) => Some(m@),
                None => None,
            },
            delimiters: self.delimiters.deep_view(),
            max_depth: self.max_depth as nat,
        }
    }

    /// A configuration from a prefix, an optional mention trigger, the
    /// delimiters in priority order, and the deepest command path to split off.
    pub fn new(prefix: &str, mention: Option<&str>, delimiters: Vec<&str>, max_depth: usize) -> (r: Self)
        ensures
            r.view().prefix == prefix@,
            r.view().mention == (match mention {
                Some(m) => Some(m@),
                None => None::<Seq<char>>,
            }),
            r.view().delimiters.len() == delimiters@.len(),
            forall|k: int| 0 <= k < delimiters@.len() ==> r.view().delimiters[k] == #[trigger] delimiters@[k]@,
            r.view().max_depth == max_depth,
    {
        let p = chars_of(prefix);
        let m = match mention {
            Some(t) => Some(chars_of(t)),
            None => None,
        };
        let mut ds: Vec<Vec<char>> = Vec::new();
        let mut k: usize = 0;
        while k < delimiters.len()
            invariant
                k <= delimiters@.len(),
                ds@.len() == k,
                forall|j: int| 0 <= j < k ==> ds@[j]@ == #[trigger] delimiters@[j]@,
            decreases delimiters@.len() - k,
        {
            let d = chars_of(delimiters[k]);
            ds.push(d);
            k = k + 1;
        }
        let r = TokenizerConfig { prefix: p, mention: m, delimiters: ds, max_depth };
        assert(r.view().delimiters.len() == delimiters@.len());
        r
    }
}

/// The characters of a string, one by one.
pub fn chars_of(s: &str) -> (r: Vec<char>)
    ensures
        r@ == s@,
{
    let n = s.unicode_len();
    let mut r: Vec<char> = Vec::new();
    let mut i: usize = 0;
    while i < n
        invariant
            n == s@.len(),
            i <= n,
            r@ == s@.subrange(0, i as int),
        decreases n - i,
    {
        let c = s.get_char(i);
        r.push(c);
        i = i + 1;
        assert(r@ =~= s@.subrange(0, i as int));
    }
    assert(r@ =~= s@);
    r
}

/// Whether `p` is a prefix of `s`.
pub fn has_prefix(s: &Vec<char>, p: &Vec<char>) -> (r: bool)
    ensures
        r == starts_with(s@, p@),
{
    if p.len() > s.len() {
        return false;
    }
    let mut j: usize = 0;
    while j < p.len()
        invariant
            p@.len() <= s@.len(),
            j <= p@.len(),
            forall|t: int| 0 <= t < j ==> s@[t] == p@[t],
        decreases p@.len() - j,
    {
        if s[j] != p[j] {
            assert(s@.subrange(0, p@.len() as int)[j as int] != p@[j as int]);
            return false;
        }
        j = j + 1;
    }
    assert(s@.subrange(0, p@.len() as int) =~= p@);
    true
}

fn occurs_at_exec(s: &Vec<char>, d: &Vec<char>, i: usize) -> (r: bool)
    requires
        i <= s@.len(),
    ensures
        r == occurs_at(s@, d@, i as int),
{
    if d.len() == 0 || d.len() > s.len() - i {
        return false;
    }
    let mut j: usize = 0;
    while j < d.len()
        invariant
            i + d@.len() <= s@.len() <= usize::MAX,
            j <= d@.len(),
            forall|t: int| 0 <= t < j ==> s@[i + t] == d@[t],
        decreases d@.len() - j,
    {
        if s[i + j] != d[j] {
            assert(s@.subrange(i as int, i + d@.len())[j as int] != d@[j as int]);
            return false;
        }
        j = j + 1;
    }
    assert(s@.subrange(i as int, i + d@.len()) =~= d@);
    true
}

fn delimiter_at_exec(s: &Vec<char>, ds: &Vec<Vec<char>>, i: usize) -> (r: Option<usize>)
    requires
        i <= s@.len(),
    ensures
        match r {
            Some(k) => delimiter_at(s@, ds.deep_view(), i as int, 0) == Some(k as int) && k < ds@.len(),
            None => delimiter_at(s@, ds.deep_view(), i as int, 0) == None::<int>,
        },
{
    let mut k: usize = 0;
    while k < ds.len()
        invariant
            i <= s@.len(),
            k <= ds@.len(),
            delimiter_at(s@, ds.deep_view(), i as int, 0) == delimiter_at(s@, ds.deep_view(), i as int, k as int),
        decreases ds@.len() - k,
    {
        assert(ds.deep_view()[k as int] == ds@[k as int]@);
        if occurs_at_exec(s, &ds[k], i) {
            return Some(k);
        }
        k = k + 1;
    }
    None
}

fn first_split_exec(s: &Vec<char>, ds: &Vec<Vec<char>>, pos: usize) -> (r: Option<(usize, usize)>)
    requires
        pos <= s@.len(),
    ensures
        match r {
            Some((i, k)) => first_split_from(s@, ds.deep_view(), pos as int) == Some((i as int, k as int))
                && pos <= i < s@.len() && k < ds@.len(),
            None => first_split_from(s@, ds.deep_view(), pos as int) == None::<(int, int)>,
        },
{
    let mut i: usize = pos;
    while i < s.len()
        invariant
            pos <= i <= s@.len(),
            first_split_from(s@, ds.deep_view(), pos as int) == first_split_from(s@, ds.deep_view(), i as int),
        decreases s@.len() - i,
    {
        match delimiter_at_exec(s, ds, i) {
            Some(k) => {
                return Some((i, k));
            },
            None => {},
        }
        i = i + 1;
    }
    None
}

/// The characters `s[from..to]` as a string.
fn substring(text: &str, from: usize, to: usize) -> (r: String)
    requires
        from <= to <= text@.len(),
    ensures
        r@ == text@.subrange(from as int, to as int),
{
    text.substring_char(from, to).to_owned()
}

/// A recognised command line.
pub enum Tokens {
    NoMatch,
    Matched { path: Vec<String>, starts: Vec<usize>, tail: String },
}

impl Tokens {
    pub open spec fn view(&self) -> TokensSpec {
        match self {
            Tokens::NoMatch => TokensSpec::NoMatch,
            Tokens::Matched { path, starts, tail } => TokensSpec::Matched {
                path: path.deep_view(),
                starts: starts@.map_values(|x: usize| x as int),
                tail: tail@,
            },
        }
    }
}

/// Splits `text` into a command path and an argument tail, or reports that it
/// is no command.
pub fn tokenize(cfg: &TokenizerConfig, text: &str) -> (r: Tokens)
    ensures
        r.view() == tokenize_spec(text@, cfg.view()),
        match r {
            Tokens::Matched { path, starts, tail } => path@.len() == starts@.len() && forall|k: int|
                0 <= k < starts@.len() ==> #[trigger] starts@[k] <= text@.len(),
            Tokens::NoMatch => true,
        },
{
    let s = chars_of(text);
    let n = s.len();
    let start: usize;
    if has_prefix(&s, &cfg.prefix) {
        start = cfg.prefix.len();
    } else {
        match &cfg.mention {
            Some(m) => {
                if has_prefix(&s, m) {
                    let mut b: usize = m.len();
                    while b < n && s[b] == ' '
                        invariant
                            b <= n == s@.len(),
                            skip_spaces(s@, m@.len() as int) == skip_spaces(s@, b as int),
                        decreases n - b,
                    {
                        b = b + 1;
                    }
                    start = b;
                } else {
                    return Tokens::NoMatch;
                }
            },
            None => {
                return Tokens::NoMatch;
            },
        }
    }
    let ghost cv = cfg.view();
    let ghost ds = cv.delimiters;
    let mut path: Vec<String> = Vec::new();
    let mut starts: Vec<usize> = Vec::new();
    let mut pos: usize = start;
    let ghost b = start as int;
    assert(body_start(s@, cv) == Some(b));
    while path.len() < cfg.max_depth && pos < n
        invariant
            s@ == text@,
            n == s@.len(),
            pos <= n,
            path@.len() <= cfg.max_depth,
            starts@.len() == path@.len(),
            forall|k: int| 0 <= k < starts@.len() ==> #[trigger] starts@[k] <= n,
            ds == cfg.delimiters.deep_view(),
            ({
                let rest = split_from(s@, ds, pos as int, (cfg.max_depth - path@.len()) as nat);
                split_from(s@, ds, b, cfg.max_depth as nat) == (
                    path.deep_view() + rest.0,
                    starts@.map_values(|x: usize| x as int) + rest.1,
                    rest.2,
                )
            }),
        decreases n - pos,
    {
        let ghost old_path = path.deep_view();
        let ghost old_starts = starts@.map_values(|x: usize| x as int);
        starts.push(pos);
        assert(starts@.map_values(|x: usize| x as int) =~= old_starts + seq![pos as int]);
        let ghost d = (cfg.max_depth - path@.len()) as nat;
        match first_split_exec(&s, &cfg.delimiters, pos) {
            None => {
                path.push(substring(text, pos, n));
                proof {
                    assert(path.deep_view() =~= old_path + seq![s@.subrange(pos as int, n as int)]);
                    let r2 = split_from(s@, ds, n as int, (d - 1) as nat);
                    assert(r2.0 =~= Seq::<Seq<char>>::empty());
                    assert(r2.1 =~= Seq::<int>::empty());
                    assert(r2.2 =~= Seq::<char>::empty());
                    assert(old_path + seq![s@.subrange(pos as int, n as int)] =~= path.deep_view() + r2.0);
                    assert(old_starts + seq![pos as int] =~= starts@.map_values(|x: usize| x as int) + r2.1);
                }
                pos = n;
            },
            Some((i, k)) => {
                path.push(substring(text, pos, i));
                let dl = cfg.delimiters[k].len();
                proof {
                    lemma_first_split_occurs(s@, ds, pos as int, i as int, k as int);
                    assert(ds[k as int] == cfg.delimiters@[k as int]@);
                    assert(path.deep_view() =~= old_path + seq![s@.subrange(pos as int, i as int)]);
                    let r2 = split_from(s@, ds, i + dl, (d - 1) as nat);
                    assert(old_path + (seq![s@.subrange(pos as int, i as int)] + r2.0)
                        =~= path.deep_view() + r2.0);
                    assert(old_starts + (seq![pos as int] + r2.1) =~= starts@.map_values(|x: usize| x as int)
                        + r2.1);
                }
                pos = i + dl;
            },
        }
    }
    let tail = substring(text, pos, n);
    proof {
        let rest = split_from(s@, ds, pos as int, (cfg.max_depth - path@.len()) as nat);
        assert(rest.0 =~= Seq::<Seq<char>>::empty());
        assert(rest.1 =~= Seq::<int>::empty());
        assert(path.deep_view() + rest.0 =~= path.deep_view());
        assert(starts@.map_values(|x: usize| x as int) + rest.1 =~= starts@.map_values(|x: usize| x as int));
    }
    if path.len() == 0 {
        return Tokens::NoMatch;
    }
    Tokens::Matched { path, starts, tail }
}

} // verus!
