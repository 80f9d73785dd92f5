use wordfall::glyph::WordContext;
use wordfall::word::{WordBox, WordError};

const TEST_FONT: &str = "/usr/share/fonts/truetype/dejavu/DejaVuSans.ttf";

fn cache() -> WordContext {
    WordContext::initialize(TEST_FONT, 48).expect("the test font loads")
}

#[test]
fn cache_is_set_to_the_requested_height() {
    let c = cache();
    assert_eq!(c.height(), 48);
    assert_eq!(c.len(), 0);
    let small = WordContext::initialize(TEST_FONT, 12).expect("the test font loads");
    assert_eq!(small.height(), 12);
}

#[test]
fn same_character_twice_gives_same_glyph() {
    let mut c = cache();
    let i = c.glyph('a').unwrap();
    let first = c.get(i).metrics;
    let first_bitmap = c.get(i).bitmap.clone();
    let j = c.glyph('a').unwrap();
    assert_eq!(i, j);
    assert_eq!(c.len(), 1);
    assert_eq!(c.get(j).metrics, first);
    assert_eq!(c.get(j).bitmap, first_bitmap);
}

#[test]
fn glyphs_stay_put_as_others_are_added() {
    let mut c = cache();
    let i = c.glyph('q').unwrap();
    let metrics = c.get(i).metrics;
    let bitmap = c.get(i).bitmap.clone();
    for ch in "the quick brown fox jumps over the lazy dog".chars() {
        c.glyph(ch).unwrap();
    }
    assert_eq!(c.find('q'), Some(i));
    assert_eq!(c.get(i).metrics, metrics);
    assert_eq!(c.get(i).bitmap, bitmap);
    assert_eq!(c.len(), 27);
}

#[test]
fn rendered_glyph_has_a_bitmap_of_its_size() {
    let mut c = cache();
    let i = c.glyph('W').unwrap();
    let g = c.get(i);
    assert!(g.metrics.width > 0 && g.metrics.height > 0);
    assert!(g.bitmap.len() >= (g.metrics.width * g.metrics.height) as usize);
    assert!(g.metrics.advance_x >> 6 > 0);
}

#[test]
fn empty_word_is_refused() {
    let mut c = cache();
    let r = WordBox::make(&mut c, "");
    assert_eq!(r.err(), Some(WordError::Empty));
    assert_eq!(c.len(), 0);
}

#[test]
fn word_box_of_repeated_letter_follows_the_formula() {
    let mut c = cache();
    let wb = WordBox::make(&mut c, "aa").unwrap();
    assert_eq!(c.len(), 1);
    let m = c.get(c.find('a').unwrap()).metrics;
    let b = wb.bounds();
    assert_eq!(b.width, (m.advance_x >> 6) as i128 + m.width as i128);
    assert_eq!(b.x, m.left as i64);
    assert_eq!(b.y, m.height as i64 - m.top as i64);
}

#[test]
fn word_resolves_each_character_in_order() {
    let mut c = cache();
    let word = "supercallafragallistic";
    let wb = WordBox::make(&mut c, word).unwrap();
    assert_eq!(wb.len(), word.chars().count());
    for (k, ch) in word.chars().enumerate() {
        assert_eq!(c.find(ch), Some(wb.glyph_index(k)));
    }
    let distinct: std::collections::BTreeSet<char> = word.chars().collect();
    assert_eq!(c.len(), distinct.len());
    let offsets = wb.offsets(0, 0);
    assert_eq!(offsets.len(), word.chars().count());
}
