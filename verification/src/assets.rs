//! Which files count as images: by the ends of their names.

use vstd::prelude::*;

verus! {

/// The capital of a small letter of the English alphabet; any other
/// character stands for itself.
pub open spec fn capital(c: char) -> char {
    if c == 'b' {
        'B'
    } else if c == 'e' {
        'E'
    } else if c == 'f' {
        'F'
    } else if c == 'g' {
        'G'
    } else if c == 'i' {
        'I'
    } else if c == 'j' {
        'J'
    } else if c == 'm' {
        'M'
    } else if c == 'n' {
        'N'
    } else if c == 'p' {
        'P'
    } else {
        c
    }
}

/// Whether `text` is `word` but for the case of its letters. `word` is
/// written in small letters.
pub open spec fn is_word(text: Seq<char>, word: Seq<char>) -> bool {
    &&& text.len() == word.len()
    &&& forall|i: int|
        0 <= i < word.len() ==> text[i] == #[trigger] word[i] || text[i] == capital(word[i])
}

/// Whether `text` ends with `suffix`, letter for letter.
pub open spec fn ends_with(text: Seq<char>, suffix: Seq<char>) -> bool {
    &&& text.len() >= suffix.len()
    &&& text.subrange(text.len() - suffix.len(), text.len() as int) == suffix
}

/// Whether a file with this extension can be dropped on the board as an
/// image: png, jpg, jpeg, bmp or gif, in small or capital letters.
pub open spec fn is_image_extension(extension: Seq<char>) -> bool {
    ||| is_word(extension, "png"@)
    ||| is_word(extension, "jpg"@)
    ||| is_word(extension, "jpeg"@)
    ||| is_word(extension, "bmp"@)
    ||| is_word(extension, "gif"@)
}

/// Whether a file with this path is listed in the poster picker: its name
/// ends with `.png`, `.jpg` or `.jpeg`, in small letters.
pub open spec fn is_listed_poster(path: Seq<char>) -> bool {
    ||| ends_with(path, ".png"@)
    ||| ends_with(path, ".jpg"@)
    ||| ends_with(path, ".jpeg"@)
}

/// The characters of a text.
pub fn characters(text: &str) -> (chars: Vec<char>)
    ensures
        chars@ == text@,
{
    let mut chars: Vec<char> = Vec::new();
    for ch in it: text.chars()
        invariant
            it.seq() == text@,
            chars@ == text@.subrange(0, it.index() as int),
    {
        chars.push(ch);
        assert(chars@ =~= text@.subrange(0, it.index() + 1));
    }
    assert(chars@ =~= text@);
    chars
}

/// The capital of a small letter of the English alphabet.
pub fn capital_of(c: char) -> (up: char)
    ensures
        up == capital(c),
{
    if c == 'b' {
        'B'
    } else if c == 'e' {
        'E'
    } else if c == 'f' {
        'F'
    } else if c == 'g' {
        'G'
    } else if c == 'i' {
        'I'
    } else if c == 'j' {
        'J'
    } else if c == 'm' {
        'M'
    } else if c == 'n' {
        'N'
    } else if c == 'p' {
        'P'
    } else {
        c
    }
}

/// Whether `text` is `word` but for the case of its letters.
pub fn matches_word(text: &[char], word: &[char]) -> (same: bool)
    ensures
        same == is_word(text@, word@),
{
    if text.len() != word.len() {
        return false;
    }
    let mut i: usize = 0;
    while i < word.len()
        invariant
            i <= word@.len(),
            text@.len() == word@.len(),
            forall|j: int|
                0 <= j < i ==> text@[j] == #[trigger] word@[j] || text@[j] == capital(word@[j]),
        decreases word@.len() - i,
    {
        if text[i] != word[i] && text[i] != capital_of(word[i]) {
            assert(!(text@[i as int] == word@[i as int] || text@[i as int] == capital(
                word@[i as int],
            )));
            return false;
        }
        i = i + 1;
    }
    true
}

/// Whether `text` ends with `suffix`.
pub fn has_suffix(text: &[char], suffix: &[char]) -> (ends: bool)
    ensures
        ends == ends_with(text@, suffix@),
{
    if text.len() < suffix.len() {
        return false;
    }
    assert(text@.len() == text.len());
    let skip: usize = text.len() - suffix.len();
    let mut i: usize = 0;
    while i < suffix.len()
        invariant
            i <= suffix@.len(),
            skip + suffix@.len() == text@.len(),
            text@.len() <= usize::MAX,
            forall|j: int| 0 <= j < i ==> text@[skip + j] == suffix@[j],
        decreases suffix@.len() - i,
    {
        if text[skip + i] != suffix[i] {
            assert(text@.subrange(skip as int, text@.len() as int)[i as int] != suffix@[i as int]);
            return false;
        }
        i = i + 1;
    }
    assert(text@.subrange(skip as int, text@.len() as int) =~= suffix@);
    true
}

/// Whether a file with this extension can be dropped on the board as an
/// image.
pub fn image_extension(extension: &str) -> (ok: bool)
    ensures
        ok == is_image_extension(extension@),
{
    let text: Vec<char> = characters(extension);
    let png: Vec<char> = characters("png");
    let jpg: Vec<char> = characters("jpg");
    let jpeg: Vec<char> = characters("jpeg");
    let bmp: Vec<char> = characters("bmp");
    let gif: Vec<char> = characters("gif");
    matches_word(text.as_slice(), png.as_slice()) || matches_word(text.as_slice(), jpg.as_slice())
        || matches_word(text.as_slice(), jpeg.as_slice()) || matches_word(
        text.as_slice(),
        bmp.as_slice(),
    ) || matches_word(text.as_slice(), gif.as_slice())
}

/// Whether a file with this path is listed in the poster picker.
pub fn listed_poster(path: &str) -> (ok: bool)
    ensures
        ok == is_listed_poster(path@),
{
    let text: Vec<char> = characters(path);
    let png: Vec<char> = characters(".png");
    let jpg: Vec<char> = characters(".jpg");
    let jpeg: Vec<char> = characters(".jpeg");
    has_suffix(text.as_slice(), png.as_slice()) || has_suffix(text.as_slice(), jpg.as_slice())
        || has_suffix(text.as_slice(), jpeg.as_slice())
}

} // verus!
