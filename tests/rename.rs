use rustfilelooper::rename::{remove_substring, rename_plan, Rename};

fn strings(v: &[&str]) -> Vec<String> {
    v.iter().map(|s| s.to_string()).collect()
}

fn rename(from: &str, to: &str) -> Rename {
    Rename { from: from.to_string(), to: to.to_string() }
}

#[test]
fn renamer_takes_target_out() {
    let files = strings(&["report_v1.txt"]);
    assert_eq!(rename_plan(&files, "v1"), vec![rename("report_v1.txt", "report_.txt")]);
}

#[test]
fn renamer_skips_names_without_target() {
    let files = strings(&["a_q.txt", "b.txt", "q_q_c"]);
    assert_eq!(
        rename_plan(&files, "q"),
        vec![rename("a_q.txt", "a_.txt"), rename("q_q_c", "__c")]
    );
    assert_eq!(
        rename_plan(&files, "x"),
        vec![rename("a_q.txt", "a_q.tt"), rename("b.txt", "b.tt")]
    );
}

#[test]
fn renamer_with_empty_target_does_nothing() {
    let files = strings(&["a.txt", "b.txt"]);
    assert_eq!(rename_plan(&files, ""), vec![]);
}

#[test]
fn remove_substring_takes_every_occurrence() {
    assert_eq!(remove_substring("abcabc", "bc"), "aa");
    assert_eq!(remove_substring("aaa", "aa"), "a");
    assert_eq!(remove_substring("abc", "abc"), "");
    assert_eq!(remove_substring("abc", "x"), "abc");
    assert_eq!(remove_substring("ab", "abc"), "ab");
    assert_eq!(remove_substring("abc", ""), "abc");
    assert_eq!(remove_substring("héllo-héllo", "é"), "hllo-hllo");
}
