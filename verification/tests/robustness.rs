use ronat::sections::parse_docblock;
use ronat::blocks::tokenize;
use ronat::walker::prose_runs;

struct Probe<'a> {
    input: &'a str,
    done: bool,
}

impl<'a> Drop for Probe<'a> {
    fn drop(&mut self) {
        if !self.done {
            println!("input that did not come back: {:?}", self.input);
        }
    }
}

fn next(state: &mut u64) -> u64 {
    *state = state.wrapping_mul(6364136223846793005).wrapping_add(1442695040888963407);
    *state >> 33
}

const WIDE: &[char] = &[
    'é', 'ß', '\u{80}', '\u{a0}', '€', '–', '大', '\u{2003}', '\u{2028}', '😀', '\u{feff}', '\u{301}',
    'İ',
];

/// A text of `alphabet`, with a character outside ASCII in every `every`th
/// place or so; with none where `every` is 0.
fn sample(state: &mut u64, alphabet: &[u8], max_len: u64, every: u64) -> String {
    let len = next(state) % (max_len + 1);
    let mut text = String::new();
    for _ in 0..len {
        if every > 0 && next(state) % every == 0 {
            let at = (next(state) % WIDE.len() as u64) as usize;
            text.push(WIDE[at]);
        } else {
            let at = (next(state) % alphabet.len() as u64) as usize;
            text.push(alphabet[at] as char);
        }
    }
    text
}

const PIECES: &[&str] = &[
    "# Parameters", "#", "##", " ", "  ", "    ", "\n", "\n\n", "\t", "- ", "* ", "+ ", "1. ", "2) ",
    "`", "``", "```", "~~~", "`x`", ": ", "text", "a", "[", "]", "(", ")", "[a]", "(b)", "[a](b)",
    "[a]: b", "![", "<", ">", "<a>", "</a>", "<div>", "-->", "<?", "?>", "!", "<pre>", "</pre>",
    "<p>", "x=\"y\"", "x='y'", "<a href=\"b\">", "]]>", "&", "&amp;", "&#1;", "&#x1;", ";", "*",
    "**", "_", "__", "---", "===", "***", "> ", ">", "\"", "'", "=", "\r", "\r\n", "|", ":",
    "http://a", "mailto:a@b.c", "<pre", "<script", "<style", ".", "0", "i. ", "A. ", "-", "+",
    "\\", "<!--", "<!A ", "<![CDATA[", "é", "😀", "€", "\u{a0}", "<pre", "<script", "<style",
    "\\n", "\\t", "\\0", "\\Z", "[a](b\\c", "[a]: b\\c", "end. ", "1 ", "x - ", ". \n",
];

fn compose(state: &mut u64, max_pieces: u64) -> String {
    let count = next(state) % (max_pieces + 1);
    let mut text = String::new();
    for _ in 0..count {
        let at = (next(state) % PIECES.len() as u64) as usize;
        text.push_str(PIECES[at]);
    }
    text
}

const MARKS: &[u8] = b"#*-_`[]()<>!&;:\"' \n\t=+~.019ab|/\r";
const LISTS: &[u8] = b"-+* \n\n  1.a>`#";
const LINKS: &[u8] = b"[]()<>\"' \nab:!&#;x\r";
const CODES: &[u8] = b"`~ \n\t>-a";
const TAGS: &[u8] = b"<>/ \n\"'=prescitlydvh1-?";
const ALL: &[u8] = b"\x00\x01\x0b\x0c\x1f\x7f\t\n\r !\"#$%&'()*+,-./0123456789:;<=>?@ABCDEFGHIJKLMNOPQRSTUVWXYZ[\\]^_`abcdefghijklmnopqrstuvwxyz{|}~";

fn probe(seed: u64, alphabet: &[u8], rounds: u64, max_len: u64) {
    let mut state = seed;
    for round in 0..rounds {
        let text = if alphabet.is_empty() {
            compose(&mut state, max_len)
        } else {
            sample(&mut state, alphabet, max_len, (round % 4) * 3)
        };
        let mut probe = Probe { input: &text, done: false };
        let _ = parse_docblock(&text);
        let _ = prose_runs(&tokenize(&text));
        probe.done = true;
    }
}

#[test]
fn every_text_of_marks_comes_back() {
    probe(7932, MARKS, 20000, 8);
    probe(15851, MARKS, 20000, 24);
}

#[test]
fn every_text_of_lists_comes_back() {
    probe(23770, LISTS, 20000, 8);
    probe(31689, LISTS, 20000, 24);
}

#[test]
fn every_text_of_links_comes_back() {
    probe(39608, LINKS, 20000, 8);
    probe(47527, LINKS, 20000, 24);
}

#[test]
fn every_text_of_code_comes_back() {
    probe(55446, CODES, 20000, 8);
    probe(63365, CODES, 20000, 24);
}

#[test]
fn every_text_of_tags_comes_back() {
    probe(71284, TAGS, 20000, 8);
    probe(79203, TAGS, 20000, 24);
}

#[test]
fn every_text_of_ascii_comes_back() {
    probe(87122, ALL, 20000, 8);
    probe(95041, ALL, 20000, 40);
}

#[test]
fn every_text_of_pieces_comes_back() {
    probe(102960, &[], 20000, 6);
    probe(110879, &[], 20000, 16);
}
