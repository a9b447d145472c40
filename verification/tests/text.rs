use moji_odpadki_parser::text::{
    chars_of, cut_after_last, cut_before_first, cut_once, find_first, find_last, has, is_match_at,
    is_text, preview_of, push_decimal, read_u32, string_of,
};

fn cs(s: &str) -> Vec<char> {
    s.chars().collect()
}

#[test]
fn characters_and_back() {
    assert_eq!(chars_of("a č€"), vec!['a', ' ', 'č', '€']);
    assert_eq!(chars_of(""), Vec::<char>::new());
    assert_eq!(string_of(&['č', 'e', 't']), "čet");
    assert_eq!(string_of(&[]), "");
}

#[test]
fn first_and_last_position() {
    let s = cs("ab<td>cd<td>e");
    let pat = cs("<td>");
    assert_eq!(find_first(&s, &pat), Some(2));
    assert_eq!(find_last(&s, &pat), Some(8));
    assert_eq!(find_first(&s, &cs("<tr>")), None);
    assert_eq!(find_last(&s, &cs("<tr>")), None);
    assert_eq!(find_first(&cs("ab"), &cs("abc")), None);
    assert_eq!(find_last(&cs("ab"), &cs("abc")), None);
    assert_eq!(find_first(&cs("aaa"), &cs("aa")), Some(0));
    assert_eq!(find_last(&cs("aaa"), &cs("aa")), Some(1));
    assert_eq!(find_first(&cs("abc"), &cs("abc")), Some(0));
    assert_eq!(find_last(&cs("abc"), &cs("c")), Some(2));
    assert_eq!(find_first(&cs("abc"), &cs("")), Some(0));
    assert_eq!(find_last(&cs("abc"), &cs("")), Some(3));
}

#[test]
fn match_at_a_position() {
    let s = cs("xxMKOxx");
    assert!(is_match_at(&s, &cs("MKO"), 2));
    assert!(!is_match_at(&s, &cs("MKO"), 1));
    assert!(is_match_at(&s, &cs(""), 7));
    assert!(!is_match_at(&s, &cs(""), 8));
    assert!(!is_match_at(&s, &cs("xx"), 6));
    assert!(!is_match_at(&s, &cs("xxMKOxxx"), 0));
    assert!(!is_match_at(&s, &cs("x"), usize::MAX));
    assert!(is_text(&s, "xxMKOxx"));
    assert!(!is_text(&s, "xxMKOx"));
    assert!(!is_text(&s, "xxMKOxy"));
    assert!(has(&s, &cs("KOx")));
    assert!(!has(&s, &cs("mko")));
}

#[test]
fn cutting() {
    let s = cs("a>b</td>c>d</td>e");
    let td = cs("</td>");
    assert_eq!(cut_before_first(&s, &td), &cs("a>b")[..]);
    assert_eq!(cut_after_last(&s, &td), &cs("e")[..]);
    assert_eq!(cut_after_last(&s, &cs(">")), &cs("e")[..]);
    assert_eq!(cut_before_first(&s, &cs("#")), &s[..]);
    assert_eq!(cut_after_last(&s, &cs("#")), &s[..]);
    let (a, b) = cut_once(&s, &td).unwrap();
    assert_eq!(a, &cs("a>b")[..]);
    assert_eq!(b, &cs("c>d</td>e")[..]);
    assert_eq!(cut_once(&s, &cs("#")), None);
    let short = cs("x</td>");
    let (a, b) = cut_once(&short, &td).unwrap();
    assert_eq!(a, &cs("x")[..]);
    assert!(b.is_empty());
}

#[test]
fn unsigned_numbers() {
    assert_eq!(read_u32(&cs("2024")), Some(2024));
    assert_eq!(read_u32(&cs("0")), Some(0));
    assert_eq!(read_u32(&cs("007")), Some(7));
    assert_eq!(read_u32(&cs("+5")), Some(5));
    assert_eq!(read_u32(&cs("4294967295")), Some(4294967295));
    assert_eq!(read_u32(&cs("4294967296")), None);
    assert_eq!(read_u32(&cs("99999999999999999999999")), None);
    assert_eq!(read_u32(&cs("")), None);
    assert_eq!(read_u32(&cs("+")), None);
    assert_eq!(read_u32(&cs("++5")), None);
    assert_eq!(read_u32(&cs("-5")), None);
    assert_eq!(read_u32(&cs("12a")), None);
    assert_eq!(read_u32(&cs(" 12")), None);
    assert_eq!(read_u32(&cs("12 ")), None);
    assert_eq!(read_u32(&cs("&nbsp;")), None);
}

#[test]
fn unsigned_numbers_agree_with_the_standard_reading() {
    for s in ["2024", "0", "007", "+5", "4294967295", "4294967296", "", "+", "-1", "1_0", "٣"] {
        assert_eq!(read_u32(&cs(s)), s.parse::<u32>().ok());
    }
}

#[test]
fn short_forms() {
    assert_eq!(preview_of(&cs("abcdef"), 3), "abc...");
    assert_eq!(preview_of(&cs("abc"), 3), "abc");
    assert_eq!(preview_of(&cs("ab"), 3), "ab");
    assert_eq!(preview_of(&cs(""), 0), "");
    assert_eq!(preview_of(&cs("a"), 0), "...");
}

#[test]
fn decimal_writing() {
    for n in [0u32, 7, 9, 10, 11, 99, 100, 12345, 1_000_000, u32::MAX] {
        let mut s = String::from("n=");
        push_decimal(&mut s, n);
        assert_eq!(s, format!("n={}", n));
    }
}

const TEXTS: [&str; 10] = [
    "",
    "a",
    "aaa",
    "aaaa",
    "ab</td>cd</td>",
    "</td>",
    "</td></td>",
    "<td class=\"x\">če</td><td>MKO, BIO</td>",
    "x>y>z",
    ">",
];

const MARKS: [&str; 6] = ["a", "aa", "</td>", ">", "</td></td>", "če"];

#[test]
fn searching_agrees_with_the_standard_library() {
    for text in TEXTS {
        for mark in MARKS {
            let (t, m) = (cs(text), cs(mark));
            let first = text.find(mark).map(|b| text[..b].chars().count());
            let last = text.rfind(mark).map(|b| text[..b].chars().count());
            assert_eq!(find_first(&t, &m), first);
            assert_eq!(find_last(&t, &m), last);
            assert_eq!(has(&t, &m), text.contains(mark));
        }
    }
}

#[test]
fn cutting_agrees_with_the_standard_library() {
    for text in TEXTS {
        for mark in MARKS {
            let (t, m) = (cs(text), cs(mark));
            assert_eq!(string_of(cut_before_first(&t, &m)), text.split(mark).next().unwrap());
            assert_eq!(string_of(cut_after_last(&t, &m)), text.rsplit(mark).next().unwrap());
            let once = cut_once(&t, &m).map(|(a, b)| (string_of(a), string_of(b)));
            let want = text.split_once(mark).map(|(a, b)| (a.to_string(), b.to_string()));
            assert_eq!(once, want);
        }
    }
}

#[test]
fn written_numbers_are_read_back() {
    for n in [0u32, 1, 9, 10, 19, 100, 2024, 65535, 4294967294, u32::MAX] {
        let mut s = String::new();
        push_decimal(&mut s, n);
        assert_eq!(read_u32(&chars_of(&s)), Some(n));
    }
}
