use vstd::prelude::*;

use crate::command::{echo_word, is_builtin_name, request_of, Request};
use crate::reply::{builtin_text, type_text};
use crate::resolve::{candidates, is_first_usable, join_path, search_dirs};
use crate::text::is_ws;
use crate::words::{
    after_first_word, lemma_skip_word_prefix, lemma_skip_ws_prefix, lemma_words_concat,
    lemma_words_shape, lemma_words_trailing_space, skip_word, skip_ws, words,
};

verus! {

/// A line made only of whitespace (the empty line included) asks for nothing,
/// and it is the only kind of line that does.
pub proof fn lemma_blank_lines(s: Seq<char>)
    ensures
        (request_of(s) is Blank) <==> forall|i: int| 0 <= i < s.len() ==> is_ws(#[trigger] s[i]),
{
    lemma_words_shape(s);
}

/// A line whose first word is a builtin name never runs a program, whatever
/// the search path holds; and `type` reports such a name as a builtin whatever
/// a search found.
pub proof fn lemma_builtins_take_precedence(s: Seq<char>, found: Option<Seq<char>>)
    requires
        words(s).len() > 0,
        is_builtin_name(words(s)[0]),
    ensures
        !(request_of(s) is External),
        type_text(words(s)[0], found) == builtin_text(words(s)[0]),
{
}

/// The program found for a name is the name placed in the first directory of
/// the search path whose candidate is a usable executable.
pub proof fn lemma_first_directory_wins(
    path_var: Option<Seq<char>>,
    name: Seq<char>,
    usable: Seq<bool>,
    k: int,
)
    requires
        usable.len() == search_dirs(path_var).len(),
        is_first_usable(usable, k),
    ensures
        candidates(path_var, name)[k] == join_path(search_dirs(path_var)[k], name),
        forall|j: int| 0 <= j < k ==> !usable[j],
{
}

/// `echo`, then any run of whitespace, then text that does not start with
/// whitespace: the text is printed exactly as written, its inner spacing kept.
pub proof fn lemma_echo_keeps_text(w: Seq<char>, t: Seq<char>)
    requires
        w.len() > 0,
        forall|i: int| 0 <= i < w.len() ==> is_ws(#[trigger] w[i]),
        t.len() == 0 || !is_ws(t[0]),
    ensures
        request_of(echo_word() + w + t) == Request::Echo(t),
{
    let e = echo_word();
    let s = e + w + t;
    assert(words(e) == seq![e]) by {
        assert(!is_ws('e') && !is_ws('c') && !is_ws('h') && !is_ws('o'));
        let e1 = seq!['e'];
        let e2 = seq!['e', 'c'];
        let e3 = seq!['e', 'c', 'h'];
        assert(e1.drop_last() =~= seq![]);
        assert(e1.last() == 'e');
        assert(words(e1.drop_last()) == Seq::<Seq<char>>::empty());
        assert(words(e1) =~= seq![e1]);
        assert(e2.drop_last() =~= e1);
        assert(e2[0] == 'e' && e2.last() == 'c');
        assert(e1.push('c') =~= e2);
        assert(words(e2) =~= seq![e2]);
        assert(e3.drop_last() =~= e2);
        assert(e3[1] == 'c' && e3.last() == 'h');
        assert(e2.push('h') =~= e3);
        assert(words(e3) =~= seq![e3]);
        assert(e.drop_last() =~= e3);
        assert(e[2] == 'h' && e.last() == 'o');
        assert(e3.push('o') =~= e);
        assert(words(e) =~= seq![e]);
    }
    lemma_words_trailing_space(e, w);
    assert((e + w).last() == w.last());
    lemma_words_concat(e + w, t);
    assert(words(s) == seq![e] + words(t));
    assert(words(s)[0] == e);
    assert(skip_ws(s) == s) by {
        assert(s[0] == 'e');
    }
    assert(s =~= e + (w + t));
    lemma_skip_word_prefix(e, w + t);
    assert((w + t)[0] == w[0]);
    assert(skip_word(w + t) == w + t);
    lemma_skip_ws_prefix(w, t);
    assert(after_first_word(s) == t);
    assert(e != crate::command::exit_word());
}

} // verus!
