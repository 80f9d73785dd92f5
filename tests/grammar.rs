use wordfall::grammar::{
    Adjective, Conjunction, Determiner, Nominal, Noun, Preposition, Pronoun, ProperNoun, Verb, NP,
    PP, S, VP,
};

#[test]
fn lexicon_words_read_back() {
    assert_eq!(Noun("flight").as_slice(), "flight");
    assert_eq!(Verb("prefer").as_slice(), "prefer");
    assert_eq!(Adjective("early").as_slice(), "early");
    assert_eq!(Pronoun("I").as_slice(), "I");
    assert_eq!(ProperNoun("Denver").as_slice(), "Denver");
    assert_eq!(Determiner("a").as_slice(), "a");
    assert_eq!(Preposition("to").as_slice(), "to");
    assert_eq!(Conjunction("and").as_slice(), "and");
}

#[test]
fn nominal_keeps_its_nouns() {
    let nouns = [Noun("morning"), Noun("flight")];
    let nom = Nominal::make(&nouns);
    let got: Vec<&str> = nom.nouns().iter().map(|n| n.as_slice()).collect();
    assert_eq!(got, vec!["morning", "flight"]);
    assert_eq!(nom.text(), "morning flight");
}

#[test]
fn single_noun_nominal_has_no_spaces() {
    let nouns = [Noun("flight")];
    assert_eq!(Nominal::make(&nouns).text(), "flight");
}

#[test]
fn demo_sentence_renders_space_separated() {
    let nouns = [Noun("morning"), Noun("flight")];
    let s = S {
        np: NP::ProNP(Pronoun("I")),
        vp: VP {
            verb: Verb("prefer"),
            np: Some(NP::DetNomNP(Determiner("a"), Nominal::make(&nouns))),
            pp: None,
        },
    };
    assert_eq!(s.text(), "I prefer a morning flight");
}

#[test]
fn verb_phrase_with_prepositional_phrase() {
    let vp = VP {
        verb: Verb("leave"),
        np: None,
        pp: Some(PP { prep: Preposition("from"), np: NP::PropNounNP(ProperNoun("Denver")) }),
    };
    assert_eq!(vp.text(), "leave from Denver");
    let nouns = [Noun("flight")];
    let full = VP {
        verb: Verb("book"),
        np: Some(NP::DetNomNP(Determiner("the"), Nominal::make(&nouns))),
        pp: Some(PP { prep: Preposition("to"), np: NP::PropNounNP(ProperNoun("Boston")) }),
    };
    assert_eq!(full.text(), "book the flight to Boston");
}

#[test]
fn write_text_appends() {
    let mut out = String::from("say: ");
    NP::ProNP(Pronoun("you")).write_text(&mut out);
    assert_eq!(out, "say: you");
    assert_eq!(PP { prep: Preposition("on"), np: NP::ProNP(Pronoun("it")) }.text(), "on it");
}
