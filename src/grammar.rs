//! A small phrase-structure grammar: lexical categories that wrap a word of a
//! dictionary, and the phrases built from them. Each phrase renders as its
//! words in reading order, separated by single spaces.
use vstd::prelude::*;

verus! {

/// The words joined by single spaces.
pub open spec fn join_words(ws: Seq<Seq<char>>) -> Seq<char>
    decreases ws.len(),
{
    if ws.len() == 0 {
        Seq::empty()
    } else if ws.len() == 1 {
        ws[0]
    } else {
        join_words(ws.drop_last()) + seq![' '] + ws.last()
    }
}

/// Joining two non-empty runs of words puts exactly one space between them.
pub proof fn lemma_join_concat(a: Seq<Seq<char>>, b: Seq<Seq<char>>)
    requires
        a.len() > 0,
        b.len() > 0,
    ensures
        join_words(a + b) == join_words(a) + seq![' '] + join_words(b),
    decreases b.len(),
{
    if b.len() == 1 {
        assert((a + b).drop_last() =~= a);
        assert((a + b).last() == b[0]);
    } else {
        lemma_join_concat(a, b.drop_last());
        assert((a + b).drop_last() =~= a + b.drop_last());
        assert((a + b).last() == b.last());
        assert(join_words(a + b) =~= join_words(a) + seq![' '] + join_words(b));
    }
}

/// Appending one more word adds a space and that word.
proof fn lemma_join_push(ws: Seq<Seq<char>>, w: Seq<char>)
    requires
        ws.len() > 0,
    ensures
        join_words(ws.push(w)) == join_words(ws) + seq![' '] + w,
{
    assert(ws.push(w).drop_last() =~= ws);
}

#[derive(Clone, Copy, Debug)]
pub struct Noun<'dict>(pub &'dict str);

impl<'dict> Noun<'dict> {
    pub fn as_slice(&self) -> (r: &'dict str)
        ensures
            r@ == self.0@,
    {
        self.0
    }
}

#[derive(Clone, Copy, Debug)]
pub struct Verb<'dict>(pub &'dict str);

impl<'dict> Verb<'dict> {
    pub fn as_slice(&self) -> (r: &'dict str)
        ensures
            r@ == self.0@,
    {
        self.0
    }
}

#[derive(Clone, Copy, Debug)]
pub struct Adjective<'dict>(pub &'dict str);

impl<'dict> Adjective<'dict> {
    pub fn as_slice(&self) -> (r: &'dict str)
        ensures
            r@ == self.0@,
    {
        self.0
    }
}

#[derive(Clone, Copy, Debug)]
pub struct Pronoun<'dict>(pub &'dict str);

impl<'dict> Pronoun<'dict> {
    pub fn as_slice(&self) -> (r: &'dict str)
        ensures
            r@ == self.0@,
    {
        self.0
    }
}

#[derive(Clone, Copy, Debug)]
pub struct ProperNoun<'dict>(pub &'dict str);

impl<'dict> ProperNoun<'dict> {
    pub fn as_slice(&self) -> (r: &'dict str)
        ensures
            r@ == self.0@,
    {
        self.0
    }
}

#[derive(Clone, Copy, Debug)]
pub struct Determiner<'dict>(pub &'dict str);

impl<'dict> Determiner<'dict> {
    pub fn as_slice(&self) -> (r: &'dict str)
        ensures
            r@ == self.0@,
    {
        self.0
    }
}

#[derive(Clone, Copy, Debug)]
pub struct Preposition<'dict>(pub &'dict str);

impl<'dict> Preposition<'dict> {
    pub fn as_slice(&self) -> (r: &'dict str)
        ensures
            r@ == self.0@,
    {
        self.0
    }
}

#[derive(Clone, Copy, Debug)]
pub struct Conjunction<'dict>(pub &'dict str);

impl<'dict> Conjunction<'dict> {
    pub fn as_slice(&self) -> (r: &'dict str)
        ensures
            r@ == self.0@,
    {
        self.0
    }
}

/// A sentence: a subject noun phrase and a verb phrase.
#[derive(Clone, Copy, Debug)]
pub struct S<'dict, 'tree> {
    pub np: NP<'dict, 'tree>,
    pub vp: VP<'dict, 'tree>,
}

impl<'dict, 'tree> S<'dict, 'tree> {
    pub open spec fn words(&self) -> Seq<Seq<char>> {
        self.np.words() + self.vp.words()
    }

    /// Appends the sentence's words, space separated, to `out`.
    pub fn write_text(&self, out: &mut String)
        ensures
            final(out)@ == old(out)@ + join_words(self.words()),
    {
        let ghost start = out@;
        self.np.write_text(out);
        out.append(" ");
        self.vp.write_text(out);
        proof {
            reveal_strlit(" ");
            lemma_join_concat(self.np.words(), self.vp.words());
        }
        assert(out@ =~= start + join_words(self.words()));
    }

    /// The sentence's words, space separated.
    pub fn text(&self) -> (r: String)
        ensures
            r@ == join_words(self.words()),
    {
        let mut out = String::new();
        self.write_text(&mut out);
        assert(out@ =~= join_words(self.words()));
        out
    }
}

/// A noun phrase.
#[derive(Clone, Copy, Debug)]
pub enum NP<'dict, 'tree> {
    ProNP(Pronoun<'dict>),
    PropNounNP(ProperNoun<'dict>),
    DetNomNP(Determiner<'dict>, Nominal<'dict, 'tree>),
}

impl<'dict, 'tree> NP<'dict, 'tree> {
    pub open spec fn words(&self) -> Seq<Seq<char>> {
        match *self {
            NP::ProNP(pro) => seq![pro.0@],
            NP::PropNounNP(pn) => seq![pn.0@],
            NP::DetNomNP(det, nom) => seq![det.0@] + nom.words(),
        }
    }

    pub proof fn lemma_words_nonempty(&self)
        ensures
            self.words().len() > 0,
    {
    }

    /// Appends the phrase's words, space separated, to `out`.
    pub fn write_text(&self, out: &mut String)
        ensures
            final(out)@ == old(out)@ + join_words(self.words()),
    {
        match *self {
            NP::ProNP(pro) => {
                out.append(pro.0);
            },
            NP::PropNounNP(pn) => {
                out.append(pn.0);
            },
            NP::DetNomNP(det, nom) => {
                let ghost start = out@;
                out.append(det.0);
                out.append(" ");
                nom.write_text(out);
                proof {
                    reveal_strlit(" ");
                    use_type_invariant(&nom);
                    lemma_join_concat(seq![det.0@], nom.words());
                }
                assert(out@ =~= start + join_words(self.words()));
            },
        }
    }

    /// The phrase's words, space separated.
    pub fn text(&self) -> (r: String)
        ensures
            r@ == join_words(self.words()),
    {
        let mut out = String::new();
        self.write_text(&mut out);
        assert(out@ =~= join_words(self.words()));
        out
    }
}

/// One or more nouns in a row.
#[derive(Clone, Copy, Debug)]
pub struct Nominal<'dict, 'tree> {
    nouns: &'tree [Noun<'dict>],
}

impl<'dict, 'tree> Nominal<'dict, 'tree> {
    #[verifier::type_invariant]
    spec fn inv(self) -> bool {
        self.nouns@.len() > 0
    }

    /// The nouns, in order.
    pub closed spec fn noun_seq(self) -> Seq<Noun<'dict>> {
        self.nouns@
    }

    pub open spec fn words(self) -> Seq<Seq<char>> {
        self.noun_seq().map_values(|n: Noun<'dict>| n.0@)
    }

    pub fn make(nouns: &'tree [Noun<'dict>]) -> (r: Nominal<'dict, 'tree>)
        requires
            nouns@.len() > 0,
        ensures
            r.noun_seq() == nouns@,
    {
        Nominal { nouns: nouns }
    }

    pub fn nouns(&self) -> (r: &'tree [Noun<'dict>])
        ensures
            r@ == self.noun_seq(),
            r@.len() > 0,
    {
        proof {
            use_type_invariant(self);
        }
        self.nouns
    }

    /// Appends the nouns, space separated, to `out`.
    pub fn write_text(&self, out: &mut String)
        ensures
            final(out)@ == old(out)@ + join_words(self.words()),
    {
        proof {
            use_type_invariant(self);
        }
        let ghost ws = self.words();
        let ghost start = out@;
        out.append(self.nouns[0].0);
        assert(ws.take(1) =~= seq![ws[0]]);
        let mut i: usize = 1;
        while i < self.nouns.len()
            invariant
                1 <= i <= self.nouns@.len(),
                ws == self.words(),
                ws.len() == self.nouns@.len(),
                out@ == start + join_words(ws.take(i as int)),
            decreases self.nouns@.len() - i,
        {
            out.append(" ");
            out.append(self.nouns[i].0);
            proof {
                reveal_strlit(" ");
                assert(ws.take(i + 1) =~= ws.take(i as int).push(ws[i as int]));
                lemma_join_push(ws.take(i as int), ws[i as int]);
            }
            assert(out@ =~= start + join_words(ws.take(i + 1)));
            i = i + 1;
        }
        assert(ws.take(i as int) =~= ws);
    }

    /// The nouns, space separated.
    pub fn text(&self) -> (r: String)
        ensures
            r@ == join_words(self.words()),
    {
        let mut out = String::new();
        self.write_text(&mut out);
        assert(out@ =~= join_words(self.words()));
        out
    }
}

/// A verb phrase: a verb, an optional object and an optional prepositional
/// phrase.
#[derive(Clone, Copy, Debug)]
pub struct VP<'dict, 'tree> {
    pub verb: Verb<'dict>,
    pub np: Option<NP<'dict, 'tree>>,
    pub pp: Option<PP<'dict, 'tree>>,
}

impl<'dict, 'tree> VP<'dict, 'tree> {
    pub open spec fn words(&self) -> Seq<Seq<char>> {
        let with_np = match self.np {
            Some(np) => seq![self.verb.0@] + np.words(),
            None => seq![self.verb.0@],
        };
        match self.pp {
            Some(pp) => with_np + pp.words(),
            None => with_np,
        }
    }

    /// Appends the phrase's words, space separated, to `out`.
    pub fn write_text(&self, out: &mut String)
        ensures
            final(out)@ == old(out)@ + join_words(self.words()),
    {
        let ghost start = out@;
        out.append(self.verb.0);
        let ghost head: Seq<Seq<char>> = seq![self.verb.0@];
        assert(out@ =~= start + join_words(head));
        match self.np {
            Some(np) => {
                out.append(" ");
                np.write_text(out);
                proof {
                    reveal_strlit(" ");
                    np.lemma_words_nonempty();
                    lemma_join_concat(head, np.words());
                    head = head + np.words();
                }
                assert(out@ =~= start + join_words(head));
            },
            None => {},
        }
        match self.pp {
            Some(pp) => {
                out.append(" ");
                pp.write_text(out);
                proof {
                    reveal_strlit(" ");
                    pp.lemma_words_nonempty();
                    lemma_join_concat(head, pp.words());
                    head = head + pp.words();
                }
                assert(out@ =~= start + join_words(head));
            },
            None => {},
        }
        assert(head == self.words());
    }

    /// The phrase's words, space separated.
    pub fn text(&self) -> (r: String)
        ensures
            r@ == join_words(self.words()),
    {
        let mut out = String::new();
        self.write_text(&mut out);
        assert(out@ =~= join_words(self.words()));
        out
    }
}

/// A prepositional phrase.
#[derive(Clone, Copy, Debug)]
pub struct PP<'dict, 'tree> {
    pub prep: Preposition<'dict>,
    pub np: NP<'dict, 'tree>,
}

impl<'dict, 'tree> PP<'dict, 'tree> {
    pub open spec fn words(&self) -> Seq<Seq<char>> {
        seq![self.prep.0@] + self.np.words()
    }

    pub proof fn lemma_words_nonempty(&self)
        ensures
            self.words().len() > 0,
    {
    }

    /// Appends the phrase's words, space separated, to `out`.
    pub fn write_text(&self, out: &mut String)
        ensures
            final(out)@ == old(out)@ + join_words(self.words()),
    {
        let ghost start = out@;
        out.append(self.prep.0);
        out.append(" ");
        self.np.write_text(out);
        proof {
            reveal_strlit(" ");
            self.np.lemma_words_nonempty();
            lemma_join_concat(seq![self.prep.0@], self.np.words());
        }
        assert(out@ =~= start + join_words(self.words()));
    }

    /// The phrase's words, space separated.
    pub fn text(&self) -> (r: String)
        ensures
            r@ == join_words(self.words()),
    {
        let mut out = String::new();
        self.write_text(&mut out);
        assert(out@ =~= join_words(self.words()));
        out
    }
}

} // verus!
