use samplo::sfz::{
    find_next_opcode, note_from_name, parse_note, parse_opcodes, strip_comments, Opcode,
};
use samplo::text::{chars_of, is_number_text, replace, same_text, starts_with, trim};

fn pairs(line: &str) -> Vec<(String, String)> {
    parse_opcodes(line).into_iter().map(|o| (o.name, o.value)).collect()
}

fn expect(list: &[(&str, &str)]) -> Vec<(String, String)> {
    list.iter().map(|(n, v)| (n.to_string(), v.to_string())).collect()
}

#[test]
fn comments_are_cut_at_the_first_double_slash() {
    assert_eq!(strip_comments("sample=a.wav // kick"), "sample=a.wav ");
    assert_eq!(strip_comments("// all comment"), "");
    assert_eq!(strip_comments("no comment"), "no comment");
    assert_eq!(strip_comments("a / b"), "a / b");
    assert_eq!(strip_comments("a/"), "a/");
    assert_eq!(strip_comments("/"), "/");
    assert_eq!(strip_comments("//"), "");
    assert_eq!(strip_comments("a//b//c"), "a");
    assert_eq!(strip_comments("a///b"), "a");
    assert_eq!(strip_comments(""), "");
    assert_eq!(strip_comments("é//x"), "é");
}

#[test]
fn next_opcode_is_the_start_of_a_name_before_an_equals_sign() {
    assert_eq!(find_next_opcode("a.wav lokey=60"), Some(6));
    assert_eq!(find_next_opcode("my file.wav key=c4"), Some(12));
    assert_eq!(find_next_opcode("60"), None);
    assert_eq!(find_next_opcode(""), None);
    assert_eq!(find_next_opcode("=5"), None);
    assert_eq!(find_next_opcode("12=5"), None);
    assert_eq!(find_next_opcode("12ab=5"), Some(2));
    assert_eq!(find_next_opcode("ab12=5"), Some(0));
    assert_eq!(find_next_opcode("a b=1"), Some(2));
    assert_eq!(find_next_opcode("a.b=1"), Some(2));
    assert_eq!(find_next_opcode("_x=1"), Some(0));
    assert_eq!(find_next_opcode("x =1"), None);
    assert_eq!(find_next_opcode("loop_mode=one_shot"), Some(0));
    assert_eq!(find_next_opcode("1 2 3 pan=4"), Some(6));
    assert_eq!(find_next_opcode("a-b=1"), Some(2));
}

#[test]
fn opcodes_split_at_the_next_name() {
    assert_eq!(
        pairs("sample=kick.wav lokey=36 hikey=38"),
        expect(&[("sample", "kick.wav"), ("lokey", "36"), ("hikey", "38")])
    );
    assert_eq!(
        pairs("  sample=My Kick 01.wav   key=c4  "),
        expect(&[("sample", "My Kick 01.wav"), ("key", "c4")])
    );
    assert_eq!(pairs("LoKey=36 SAMPLE=A.WAV"), expect(&[("lokey", "36"), ("sample", "A.WAV")]));
    assert_eq!(pairs(""), expect(&[]));
    assert_eq!(pairs("   "), expect(&[]));
    assert_eq!(pairs("no opcode here"), expect(&[]));
    assert_eq!(pairs("volume=-6 trailing words"), expect(&[("volume", "-6 trailing words")]));
    assert_eq!(pairs("a="), expect(&[("a", "")]));
    assert_eq!(pairs("="), expect(&[("", "")]));
    assert_eq!(pairs("a = 1"), expect(&[("a", "1")]));
    assert_eq!(pairs("sample=../x/y.wav pan=-100"), expect(&[("sample", "../x/y.wav"), ("pan", "-100")]));
}

#[test]
fn repeated_opcode_keeps_its_place_and_takes_the_last_value() {
    assert_eq!(
        pairs("lokey=1 hikey=2 lokey=3"),
        expect(&[("lokey", "3"), ("hikey", "2")])
    );
    assert_eq!(pairs("a=1 A=2"), expect(&[("a", "2")]));
}

#[test]
fn opcode_value_with_equals_inside() {
    assert_eq!(pairs("a=b=c"), expect(&[("a", ""), ("b", "c")]));
    assert_eq!(pairs("a=1=2"), expect(&[("a", "1=2")]));
}

#[test]
fn opcode_struct_holds_name_and_value() {
    assert_eq!(
        parse_opcodes("tune=12"),
        vec![Opcode { name: String::from("tune"), value: String::from("12") }]
    );
}

#[test]
fn notes_by_number() {
    assert_eq!(parse_note("60"), Some(60));
    assert_eq!(parse_note("0"), Some(0));
    assert_eq!(parse_note("127"), Some(127));
    assert_eq!(parse_note("128"), Some(127));
    assert_eq!(parse_note("255"), Some(127));
    assert_eq!(parse_note("+60"), Some(60));
    assert_eq!(parse_note("007"), Some(7));
    assert_eq!(parse_note("256"), None);
    assert_eq!(parse_note("-1"), None);
    assert_eq!(parse_note(" 60"), None);
    assert_eq!(parse_note("60 "), None);
    assert_eq!(parse_note("6_0"), None);
    assert_eq!(parse_note(""), None);
    assert_eq!(parse_note("+"), None);
}

#[test]
fn notes_by_name() {
    assert_eq!(parse_note("c4"), Some(60));
    assert_eq!(parse_note("C4"), Some(60));
    assert_eq!(parse_note("a4"), Some(69));
    assert_eq!(parse_note("c#4"), Some(61));
    assert_eq!(parse_note("cs4"), Some(61));
    assert_eq!(parse_note("db4"), Some(61));
    assert_eq!(parse_note("Db4"), Some(61));
    assert_eq!(parse_note("df4"), Some(61));
    assert_eq!(parse_note("bb3"), Some(58));
    assert_eq!(parse_note("b3"), Some(59));
    assert_eq!(parse_note("e2"), Some(40));
    assert_eq!(parse_note("f#2"), Some(42));
    assert_eq!(parse_note("g9"), Some(127));
    assert_eq!(parse_note("c-1"), Some(0));
    assert_eq!(parse_note("c+4"), Some(60));
    assert_eq!(parse_note("c#-1"), Some(1));
}

#[test]
fn note_names_outside_the_range_or_malformed() {
    assert_eq!(parse_note("g#9"), None);
    assert_eq!(parse_note("a9"), None);
    assert_eq!(parse_note("c10"), None);
    assert_eq!(parse_note("c20"), None);
    assert_eq!(parse_note("c21"), None);
    assert_eq!(parse_note("c127"), None);
    assert_eq!(parse_note("c128"), None);
    assert_eq!(parse_note("cb-1"), None);
    assert_eq!(parse_note("c-2"), None);
    assert_eq!(parse_note("c-128"), None);
    assert_eq!(parse_note("h4"), None);
    assert_eq!(parse_note("c"), None);
    assert_eq!(parse_note("c#"), None);
    assert_eq!(parse_note("c4 "), None);
    assert_eq!(parse_note("c 4"), None);
    assert_eq!(parse_note("#4"), None);
    assert_eq!(parse_note("c##4"), None);
    assert_eq!(parse_note("4c"), None);
}

#[test]
fn flat_of_f_and_sharp_written_s() {
    // after a note letter, f and b lower and s raises
    assert_eq!(parse_note("ff3"), Some(52));
    assert_eq!(parse_note("fs3"), Some(54));
    assert_eq!(parse_note("es3"), Some(53));
    assert_eq!(parse_note("bf3"), Some(58));
}

#[test]
fn number_text_agrees_with_the_float_parser() {
    let samples = [
        "0", "1", "-1", "+1", "1.5", "-0.25", ".5", "5.", "+.5", "-5.", "1e5", "1E5", "1e+5",
        "1e-5", "1.5e3", ".5e3", "5.e3", "inf", "-inf", "+inf", "INF", "Inf", "infinity",
        "-Infinity", "INFINITY", "nan", "NaN", "-nan", "+NAN", "", "+", "-", ".", "+.", "e5",
        ".e5", "1e", "1e+", "1e-", "1e5.0", "1.5.2", "1..5", " 1", "1 ", "1,5", "0x10", "1_000",
        "infinit", "infinityy", "in", "na", "nanan", "--1", "+-1", "1e5e5", "1f", "12abc", "abc",
        "100", "-100", "3.14159", "1e400", "000.000", "-.0e-0", "١", "1.5", "inf.", "e",
    ];
    for s in samples {
        assert_eq!(is_number_text(s), s.parse::<f32>().is_ok(), "{:?}", s);
    }
}

#[test]
fn text_helpers() {
    assert_eq!(chars_of("aé€"), vec!['a', 'é', '€']);
    assert_eq!(chars_of(""), Vec::<char>::new());
    assert!(same_text("abc", "abc"));
    assert!(!same_text("abc", "abd"));
    assert!(!same_text("abc", "ab"));
    assert!(same_text("", ""));
    assert_eq!(trim("  a b \t\n"), "a b");
    assert_eq!(trim("\u{3000}x\u{a0}"), "x");
    assert_eq!(trim("   "), "");
    assert_eq!(trim(""), "");
    assert_eq!(trim("x"), "x");
    assert!(starts_with("#define $A 1", "#define"));
    assert!(starts_with("#define", "#define"));
    assert!(!starts_with("#defin", "#define"));
    assert!(!starts_with(" #define", "#define"));
    assert!(starts_with("abc", ""));
}

#[test]
fn positions_are_counted_in_characters() {
    assert_eq!(find_next_opcode("é a=1"), Some(2));
    assert_eq!(find_next_opcode("ü€ß key=1"), Some(4));
    assert_eq!(
        pairs("sample=Größe é.wav lokey=1"),
        expect(&[("sample", "Größe é.wav"), ("lokey", "1")])
    );
    assert_eq!(pairs("sample=\u{3000}a b\u{a0} key=1"), expect(&[("sample", "a b"), ("key", "1")]));
    // letters outside ASCII do not begin a name
    assert_eq!(find_next_opcode("ä=1"), None);
    assert_eq!(pairs("SÄMPLE=x"), expect(&[("sämple", "x")]));
}

#[test]
fn replace_agrees_with_the_standard_library() {
    let texts = ["", "a", "aaa", "aaaa", "abcabc", "key=$KEY $KEYS", "x\\y\\z", "éàé", "ab", "banana"];
    let patterns = ["", "a", "aa", "abc", "$KEY", "\\", "é", "b", "ana", "zz", "banana!"];
    let replacements = ["", "-", "aa", "$KEY", "/", "ü"];
    for text in texts {
        for pattern in patterns {
            for to in replacements {
                assert_eq!(
                    replace(text, pattern, to),
                    text.replace(pattern, to),
                    "{:?} {:?} {:?}",
                    text,
                    pattern,
                    to
                );
            }
        }
    }
    assert_eq!(replace("aaa", "aa", "b"), "ba");
    assert_eq!(replace("abc", "", "-"), "-a-b-c-");
    assert_eq!(replace("", "", "-"), "-");
    assert_eq!(replace("a\\b\\c", "\\", "/"), "a/b/c");
}

#[test]
fn note_names_are_read_in_lower_case() {
    assert_eq!(note_from_name("c4"), Some(60));
    assert_eq!(note_from_name("a#-1"), Some(10));
    assert_eq!(note_from_name("bb3"), Some(58));
    assert_eq!(note_from_name("g9"), Some(127));
    assert_eq!(note_from_name("C4"), None);
    assert_eq!(note_from_name("60"), None);
    assert_eq!(note_from_name(""), None);
    assert_eq!(note_from_name("c"), None);
    assert_eq!(note_from_name("c10"), None);
}

#[test]
fn every_opcode_name_stands_once() {
    for line in ["a=1 b=2 a=3 c=4 b=5 A=6", "x=1 x=2 x=3", "k=1", ""] {
        let list = parse_opcodes(line);
        for i in 0..list.len() {
            for j in i + 1..list.len() {
                assert_ne!(list[i].name, list[j].name);
            }
        }
    }
    assert_eq!(
        pairs("a=1 b=2 a=3 c=4 b=5 A=6"),
        expect(&[("a", "6"), ("b", "5"), ("c", "4")])
    );
}
