//! The fixed page into which a script and its initialization call are set.

use vstd::prelude::*;
use crate::text::{
    append, chars_of, find, lemma_occurrence_after, lemma_occurrence_char, occurs, occurs_at,
    string_of,
};

verus! {

/// The page before substitution.
pub const TEMPLATE: &'static str =
    "\n<!doctype html>\n<html lang=\"en\">\n<head>\n    <meta charset=\"UTF-8\">\n    <meta name=\"viewport\" content=\"width=device-width, user-scalable=no, initial-scale=1.0, maximum-scale=1.0, minimum-scale=1.0\">\n    <meta http-equiv=\"X-UA-Compatible\" content=\"ie=edge\">\n    <title>Document</title>\n</head>\n<body>\n    <script type=\"module\">\n    /*JS_GOES_HERE*/\n    /*INIT_GOES_HERE*/\n    </script>\n</body>\n</html>\n";

/// The token that the script replaces.
pub const SCRIPT_MARKER: &'static str = "/*JS_GOES_HERE*/";

/// The token that the initialization call replaces.
pub const INIT_MARKER: &'static str = "/*INIT_GOES_HERE*/";

/// The template up to the script marker.
pub open spec fn head() -> Seq<char> {
    "\n<!doctype html>\n<html lang=\"en\">\n<head>\n    <meta charset=\"UTF-8\">\n    <meta name=\"viewport\" content=\"width=device-width, user-scalable=no, initial-scale=1.0, maximum-scale=1.0, minimum-scale=1.0\">\n    <meta http-equiv=\"X-UA-Compatible\" content=\"ie=edge\">\n    <title>Document</title>\n</head>\n<body>\n    <script type=\"module\">\n    "@
}

/// The template between the two markers.
pub open spec fn middle() -> Seq<char> {
    "\n    "@
}

/// The template after the initialization marker.
pub open spec fn tail() -> Seq<char> {
    "\n    </script>\n</body>\n</html>\n"@
}

/// The template is its five parts, one after the other.
pub proof fn lemma_template_parts()
    ensures
        TEMPLATE@ == head() + SCRIPT_MARKER@ + middle() + INIT_MARKER@ + tail(),
{
    reveal_strlit("\n<!doctype html>\n<html lang=\"en\">\n<head>\n    <meta charset=\"UTF-8\">\n    <meta name=\"viewport\" content=\"width=device-width, user-scalable=no, initial-scale=1.0, maximum-scale=1.0, minimum-scale=1.0\">\n    <meta http-equiv=\"X-UA-Compatible\" content=\"ie=edge\">\n    <title>Document</title>\n</head>\n<body>\n    <script type=\"module\">\n    /*JS_GOES_HERE*/\n    /*INIT_GOES_HERE*/\n    </script>\n</body>\n</html>\n");
    reveal_strlit("\n<!doctype html>\n<html lang=\"en\">\n<head>\n    <meta charset=\"UTF-8\">\n    <meta name=\"viewport\" content=\"width=device-width, user-scalable=no, initial-scale=1.0, maximum-scale=1.0, minimum-scale=1.0\">\n    <meta http-equiv=\"X-UA-Compatible\" content=\"ie=edge\">\n    <title>Document</title>\n</head>\n<body>\n    <script type=\"module\">\n    ");
    reveal_strlit("/*JS_GOES_HERE*/");
    reveal_strlit("\n    ");
    reveal_strlit("/*INIT_GOES_HERE*/");
    reveal_strlit("\n    </script>\n</body>\n</html>\n");
    assert(TEMPLATE@ =~= head() + SCRIPT_MARKER@ + middle() + INIT_MARKER@ + tail());
}

/// The head holds no star and ends in a space.
proof fn lemma_head_chars()
    ensures
        head().len() > 0,
        head().last() == ' ',
        forall|i: int| 0 <= i < head().len() ==> head()[i] != '*',
{
    reveal_strlit("\n<!doctype html>\n<html lang=\"en\">\n<head>\n    <meta charset=\"UTF-8\">\n    <meta name=\"viewport\" content=\"width=device-width, user-scalable=no, initial-scale=1.0, maximum-scale=1.0, minimum-scale=1.0\">\n    <meta http-equiv=\"X-UA-Compatible\" content=\"ie=edge\">\n    <title>Document</title>\n</head>\n<body>\n    <script type=\"module\">\n    ");
}

/// The middle part is a line break and four spaces.
proof fn lemma_middle_chars()
    ensures
        middle().len() == 5,
        middle()[0] == '\n',
        forall|i: int| 0 <= i < 5 ==> middle()[i] != '/' && middle()[i] != '*',
{
    reveal_strlit("\n    ");
}

/// The tail holds no star and begins with a line break.
proof fn lemma_tail_chars()
    ensures
        tail().len() > 0,
        tail()[0] == '\n',
        forall|i: int| 0 <= i < tail().len() ==> tail()[i] != '*',
{
    reveal_strlit("\n    </script>\n</body>\n</html>\n");
}

/// How the two markers begin and end, and that neither holds a line break.
proof fn lemma_marker_chars()
    ensures
        SCRIPT_MARKER@.len() == 16,
        SCRIPT_MARKER@[0] == '/',
        SCRIPT_MARKER@[1] == '*',
        SCRIPT_MARKER@[2] == 'J',
        SCRIPT_MARKER@[13] == 'E',
        forall|k: int| 0 <= k < 16 && SCRIPT_MARKER@[k] == '*' ==> k == 1 || k == 14,
        INIT_MARKER@.len() == 18,
        INIT_MARKER@[0] == '/',
        INIT_MARKER@[1] == '*',
        INIT_MARKER@[2] == 'I',
        INIT_MARKER@[15] == 'E',
        forall|k: int| 0 <= k < 18 && INIT_MARKER@[k] == '*' ==> k == 1 || k == 16,
        forall|k: int| 0 <= k < 18 ==> INIT_MARKER@[k] != '\n',
{
    reveal_strlit("/*JS_GOES_HERE*/");
    reveal_strlit("/*INIT_GOES_HERE*/");
}

/// No marker begins inside the head, whatever follows the head.
proof fn lemma_no_marker_in_head(rest: Seq<char>, at: int)
    requires
        at < head().len(),
    ensures
        !occurs_at(head() + rest, SCRIPT_MARKER@, at),
        !occurs_at(head() + rest, INIT_MARKER@, at),
{
    lemma_head_chars();
    lemma_marker_chars();
    let whole = head() + rest;
    if occurs_at(whole, SCRIPT_MARKER@, at) {
        lemma_occurrence_char(whole, SCRIPT_MARKER@, at, 0);
        lemma_occurrence_char(whole, SCRIPT_MARKER@, at, 1);
        if at + 1 < head().len() {
            assert(whole[at + 1] == head()[at + 1]);
        } else {
            assert(whole[at] == head().last());
        }
    }
    if occurs_at(whole, INIT_MARKER@, at) {
        lemma_occurrence_char(whole, INIT_MARKER@, at, 0);
        lemma_occurrence_char(whole, INIT_MARKER@, at, 1);
        if at + 1 < head().len() {
            assert(whole[at + 1] == head()[at + 1]);
        } else {
            assert(whole[at] == head().last());
        }
    }
}

/// No marker stands in the tail.
proof fn lemma_no_marker_in_tail()
    ensures
        !occurs(tail(), INIT_MARKER@),
        !occurs(tail(), SCRIPT_MARKER@),
{
    lemma_tail_chars();
    lemma_marker_chars();
    if occurs(tail(), INIT_MARKER@) {
        let at = choose|at: int| occurs_at(tail(), INIT_MARKER@, at);
        lemma_occurrence_char(tail(), INIT_MARKER@, at, 1);
    }
    if occurs(tail(), SCRIPT_MARKER@) {
        let at = choose|at: int| occurs_at(tail(), SCRIPT_MARKER@, at);
        lemma_occurrence_char(tail(), SCRIPT_MARKER@, at, 1);
    }
}

/// In the initialization marker and the tail, the initialization marker
/// stands at the front only and the script marker nowhere.
proof fn lemma_markers_from_init_marker(at: int)
    ensures
        occurs_at(INIT_MARKER@ + tail(), INIT_MARKER@, at) ==> at == 0,
        !occurs_at(INIT_MARKER@ + tail(), SCRIPT_MARKER@, at),
{
    lemma_tail_chars();
    lemma_marker_chars();
    lemma_no_marker_in_tail();
    let text = INIT_MARKER@ + tail();
    if occurs_at(text, INIT_MARKER@, at) && at != 0 {
        if at >= 18 {
            lemma_occurrence_after(INIT_MARKER@, tail(), INIT_MARKER@, at);
        } else {
            lemma_occurrence_char(text, INIT_MARKER@, at, 0);
            lemma_occurrence_char(text, INIT_MARKER@, at, 1);
            if at + 1 < 18 {
                assert(text[at + 1] == INIT_MARKER@[at + 1]);
                assert(text[at] == INIT_MARKER@[at]);
            } else {
                assert(text[at + 1] == tail()[0]);
            }
        }
    }
    if occurs_at(text, SCRIPT_MARKER@, at) {
        if at >= 18 {
            lemma_occurrence_after(INIT_MARKER@, tail(), SCRIPT_MARKER@, at);
        } else {
            lemma_occurrence_char(text, SCRIPT_MARKER@, at, 0);
            lemma_occurrence_char(text, SCRIPT_MARKER@, at, 1);
            lemma_occurrence_char(text, SCRIPT_MARKER@, at, 2);
            if at + 1 < 18 {
                assert(text[at + 1] == INIT_MARKER@[at + 1]);
                assert(text[at] == INIT_MARKER@[at]);
                assert(text[2] == INIT_MARKER@[2]);
            } else {
                assert(text[at + 1] == tail()[0]);
            }
        }
    }
}

/// In what follows the script marker, the initialization marker stands
/// right after the middle part only and the script marker nowhere.
proof fn lemma_markers_after_script_marker(at: int)
    ensures
        occurs_at(middle() + (INIT_MARKER@ + tail()), INIT_MARKER@, at) ==> at == 5,
        !occurs_at(middle() + (INIT_MARKER@ + tail()), SCRIPT_MARKER@, at),
{
    lemma_middle_chars();
    lemma_marker_chars();
    let rest = INIT_MARKER@ + tail();
    let text = middle() + rest;
    if at >= 5 {
        lemma_occurrence_after(middle(), rest, INIT_MARKER@, at);
        lemma_occurrence_after(middle(), rest, SCRIPT_MARKER@, at);
        lemma_markers_from_init_marker(at - 5);
    } else {
        if occurs_at(text, INIT_MARKER@, at) {
            lemma_occurrence_char(text, INIT_MARKER@, at, 0);
            assert(text[at] == middle()[at]);
        }
        if occurs_at(text, SCRIPT_MARKER@, at) {
            lemma_occurrence_char(text, SCRIPT_MARKER@, at, 0);
            assert(text[at] == middle()[at]);
        }
    }
}

/// From the script marker on, the script marker stands at the front only and
/// the initialization marker right after the middle part only.
proof fn lemma_markers_from_script_marker(at: int)
    ensures
        occurs_at(
            SCRIPT_MARKER@ + (middle() + (INIT_MARKER@ + tail())),
            SCRIPT_MARKER@,
            at,
        ) ==> at == 0,
        occurs_at(
            SCRIPT_MARKER@ + (middle() + (INIT_MARKER@ + tail())),
            INIT_MARKER@,
            at,
        ) ==> at == 21,
{
    lemma_middle_chars();
    lemma_marker_chars();
    let rest = middle() + (INIT_MARKER@ + tail());
    let text = SCRIPT_MARKER@ + rest;
    if at >= 16 {
        lemma_occurrence_after(SCRIPT_MARKER@, rest, INIT_MARKER@, at);
        lemma_occurrence_after(SCRIPT_MARKER@, rest, SCRIPT_MARKER@, at);
        lemma_markers_after_script_marker(at - 16);
    } else {
        if occurs_at(text, SCRIPT_MARKER@, at) && at != 0 {
            lemma_occurrence_char(text, SCRIPT_MARKER@, at, 0);
            lemma_occurrence_char(text, SCRIPT_MARKER@, at, 1);
            if at + 1 < 16 {
                assert(text[at + 1] == SCRIPT_MARKER@[at + 1]);
                assert(text[at] == SCRIPT_MARKER@[at]);
            } else {
                assert(text[at + 1] == middle()[0]);
            }
        }
        if occurs_at(text, INIT_MARKER@, at) {
            lemma_occurrence_char(text, INIT_MARKER@, at, 0);
            lemma_occurrence_char(text, INIT_MARKER@, at, 1);
            lemma_occurrence_char(text, INIT_MARKER@, at, 2);
            if at + 1 < 16 {
                assert(text[at + 1] == SCRIPT_MARKER@[at + 1]);
                assert(text[at] == SCRIPT_MARKER@[at]);
                assert(text[2] == SCRIPT_MARKER@[2]);
            } else {
                assert(text[at + 1] == middle()[0]);
            }
        }
    }
}

/// Each marker stands in the template exactly once: the script marker right
/// after the head, the initialization marker right after the middle part.
pub proof fn lemma_markers_stand_once()
    ensures
        forall|at: int| occurs_at(TEMPLATE@, SCRIPT_MARKER@, at) <==> at == head().len(),
        forall|at: int|
            occurs_at(TEMPLATE@, INIT_MARKER@, at) <==> at == head().len() + SCRIPT_MARKER@.len()
                + middle().len(),
{
    lemma_template_parts();
    lemma_marker_chars();
    lemma_middle_chars();
    let h = head().len() as int;
    let rest = SCRIPT_MARKER@ + (middle() + (INIT_MARKER@ + tail()));
    assert(TEMPLATE@ =~= head() + rest);
    assert(occurs_at(rest, SCRIPT_MARKER@, 0)) by {
        assert(rest.subrange(0, 16) =~= SCRIPT_MARKER@);
    }
    assert(occurs_at(rest, INIT_MARKER@, 21)) by {
        assert(rest.subrange(21, 39) =~= INIT_MARKER@);
    }
    assert forall|at: int| occurs_at(TEMPLATE@, SCRIPT_MARKER@, at) <==> at == h by {
        if at < h {
            lemma_no_marker_in_head(rest, at);
        } else {
            lemma_occurrence_after(head(), rest, SCRIPT_MARKER@, at);
            lemma_markers_from_script_marker(at - h);
        }
    }
    assert forall|at: int| occurs_at(TEMPLATE@, INIT_MARKER@, at) <==> at == h + 21 by {
        if at < h {
            lemma_no_marker_in_head(rest, at);
        } else {
            lemma_occurrence_after(head(), rest, INIT_MARKER@, at);
            lemma_markers_from_script_marker(at - h);
        }
    }
}

/// The page for `script` and `init`: the template with `script` in the place
/// of its script marker and `init` in the place of its initialization
/// marker. Only the template's own two markers are replaced; `script` and
/// `init` stand in the page as they are, whatever they hold.
pub open spec fn page(script: Seq<char>, init: Seq<char>) -> Seq<char> {
    head() + script + middle() + init + tail()
}

/// The characters of the page for `script` and `init`.
pub fn page_chars(script: &[char], init: &[char]) -> (html: Vec<char>)
    ensures
        html@ == page(script@, init@),
{
    let template = chars_of(TEMPLATE);
    let script_marker = chars_of(SCRIPT_MARKER);
    let init_marker = chars_of(INIT_MARKER);
    let text = template.as_slice();
    let end = text.len();
    let mut html: Vec<char> = Vec::new();
    proof {
        lemma_template_parts();
        lemma_markers_stand_once();
    }
    match (find(text, script_marker.as_slice()), find(text, init_marker.as_slice())) {
        (Some(script_at), Some(init_at)) => {
            assert(occurs_at(text@, script_marker@, script_at as int));
            assert(occurs_at(text@, init_marker@, init_at as int));
            let after_script = script_at + script_marker.len();
            let after_init = init_at + init_marker.len();
            assert(text@.subrange(0, script_at as int) =~= head());
            assert(text@.subrange(after_script as int, init_at as int) =~= middle());
            assert(text@.subrange(after_init as int, end as int) =~= tail());
            append(&mut html, &text[0..script_at]);
            append(&mut html, script);
            append(&mut html, &text[after_script..init_at]);
            append(&mut html, init);
            append(&mut html, &text[after_init..end]);
        },
        _ => {
            assert(occurs_at(text@, script_marker@, head().len() as int));
            assert(occurs_at(
                text@,
                init_marker@,
                (head().len() + SCRIPT_MARKER@.len() + middle().len()) as int,
            ));
            assert(false);
        },
    }
    html
}

/// Sets `script` and `init` into the template.
pub fn render_page(script: &str, init: &str) -> (html: String)
    ensures
        html@ == page(script@, init@),
{
    let script = chars_of(script);
    let init = chars_of(init);
    let html = page_chars(script.as_slice(), init.as_slice());
    string_of(html.as_slice())
}

/// The page with each marker set in its own place is the template again.
pub proof fn lemma_page_of_markers()
    ensures
        page(SCRIPT_MARKER@, INIT_MARKER@) == TEMPLATE@,
{
    lemma_template_parts();
}

/// The page begins with the template's head, and the script follows it at
/// once, whole and unchanged; the call stands after the template's middle
/// part, and the template's tail ends the page.
pub proof fn lemma_page_layout(script: Seq<char>, init: Seq<char>)
    ensures
        occurs_at(page(script, init), head(), 0),
        occurs_at(page(script, init), script, head().len() as int),
        occurs_at(page(script, init), middle(), (head().len() + script.len()) as int),
        occurs_at(
            page(script, init),
            init,
            (head().len() + script.len() + middle().len()) as int,
        ),
        occurs_at(
            page(script, init),
            tail(),
            (head().len() + script.len() + middle().len() + init.len()) as int,
        ),
        page(script, init).len() == head().len() + script.len() + middle().len() + init.len()
            + tail().len(),
{
    let html = page(script, init);
    let a: int = head().len() as int;
    let b: int = a + script.len();
    let c: int = b + middle().len();
    let d: int = c + init.len();
    assert(html.subrange(0, a) =~= head());
    assert(html.subrange(a, b) =~= script);
    assert(html.subrange(b, c) =~= middle());
    assert(html.subrange(c, d) =~= init);
    assert(html.subrange(d, d + tail().len()) =~= tail());
}

} // verus!
