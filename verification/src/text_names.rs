//! That the names in derived code are identifiers.
use vstd::prelude::*;

use crate::parse::word_char;
use crate::source::is_name;

verus! {

/// How the words that are no names begin, and how long they are.
proof fn lemma_keyword_forms()
    ensures
        "match"@.len() == 5 && "match"@[0] == 'm',
        "while"@.len() == 5 && "while"@[0] == 'w',
        "return"@.len() == 6 && "return"@[0] == 'r',
        "try"@.len() == 3 && "try"@[0] == 't',
        "let"@.len() == 3 && "let"@[0] == 'l',
        "mut"@.len() == 3 && "mut"@[0] == 'm',
        "struct"@.len() == 6 && "struct"@[0] == 's',
        "enum"@.len() == 4 && "enum"@[0] == 'e',
        "impl"@.len() == 4 && "impl"@[0] == 'i',
        "fn"@.len() == 2 && "fn"@[0] == 'f',
        "type"@.len() == 4 && "type"@[0] == 't',
        "_"@.len() == 1 && "_"@[0] == '_',
        "return"@[2] == 't',
{
    reveal_strlit("match");
    reveal_strlit("while");
    reveal_strlit("return");
    reveal_strlit("try");
    reveal_strlit("let");
    reveal_strlit("mut");
    reveal_strlit("struct");
    reveal_strlit("enum");
    reveal_strlit("impl");
    reveal_strlit("fn");
    reveal_strlit("type");
    reveal_strlit("_");
}

proof fn lemma_serde_is_name()
    ensures
        is_name("serde"@),
{
    lemma_keyword_forms();
    reveal_strlit("serde");
    let s = "serde"@;
    assert(s.len() == 5 && s[0] == 's');
    assert forall|i: int| 0 <= i < s.len() implies word_char(#[trigger] s[i]) by {
        assert(i == 0 || i == 1 || i == 2 || i == 3 || i == 4);
    }
}

proof fn lemma_de_is_name()
    ensures
        is_name("de"@),
{
    lemma_keyword_forms();
    reveal_strlit("de");
    let s = "de"@;
    assert(s.len() == 2 && s[0] == 'd');
    assert forall|i: int| 0 <= i < s.len() implies word_char(#[trigger] s[i]) by {
        assert(i == 0 || i == 1);
    }
}

proof fn lemma_big_deserialize_is_name()
    ensures
        is_name("Deserialize"@),
{
    lemma_keyword_forms();
    reveal_strlit("Deserialize");
    let s = "Deserialize"@;
    assert(s.len() == 11 && s[0] == 'D');
    assert forall|i: int| 0 <= i < s.len() implies word_char(#[trigger] s[i]) by {
        assert(i == 0 || i == 1 || i == 2 || i == 3 || i == 4 || i == 5 || i == 6 || i == 7 || i
            == 8 || i == 9 || i == 10);
    }
}

proof fn lemma_big_deserializer_is_name()
    ensures
        is_name("Deserializer"@),
{
    lemma_keyword_forms();
    reveal_strlit("Deserializer");
    let s = "Deserializer"@;
    assert(s.len() == 12 && s[0] == 'D');
    assert forall|i: int| 0 <= i < s.len() implies word_char(#[trigger] s[i]) by {
        assert(i == 0 || i == 1 || i == 2 || i == 3 || i == 4 || i == 5 || i == 6 || i == 7 || i
            == 8 || i == 9 || i == 10 || i == 11);
    }
}

proof fn lemma_big_visitor_is_name()
    ensures
        is_name("Visitor"@),
{
    lemma_keyword_forms();
    reveal_strlit("Visitor");
    let s = "Visitor"@;
    assert(s.len() == 7 && s[0] == 'V');
    assert forall|i: int| 0 <= i < s.len() implies word_char(#[trigger] s[i]) by {
        assert(i == 0 || i == 1 || i == 2 || i == 3 || i == 4 || i == 5 || i == 6);
    }
}

proof fn lemma_big_enumvisitor_is_name()
    ensures
        is_name("EnumVisitor"@),
{
    lemma_keyword_forms();
    reveal_strlit("EnumVisitor");
    let s = "EnumVisitor"@;
    assert(s.len() == 11 && s[0] == 'E');
    assert forall|i: int| 0 <= i < s.len() implies word_char(#[trigger] s[i]) by {
        assert(i == 0 || i == 1 || i == 2 || i == 3 || i == 4 || i == 5 || i == 6 || i == 7 || i
            == 8 || i == 9 || i == 10);
    }
}

proof fn lemma_big_seqvisitor_is_name()
    ensures
        is_name("SeqVisitor"@),
{
    lemma_keyword_forms();
    reveal_strlit("SeqVisitor");
    let s = "SeqVisitor"@;
    assert(s.len() == 10 && s[0] == 'S');
    assert forall|i: int| 0 <= i < s.len() implies word_char(#[trigger] s[i]) by {
        assert(i == 0 || i == 1 || i == 2 || i == 3 || i == 4 || i == 5 || i == 6 || i == 7 || i
            == 8 || i == 9);
    }
}

proof fn lemma_big_mapvisitor_is_name()
    ensures
        is_name("MapVisitor"@),
{
    lemma_keyword_forms();
    reveal_strlit("MapVisitor");
    let s = "MapVisitor"@;
    assert(s.len() == 10 && s[0] == 'M');
    assert forall|i: int| 0 <= i < s.len() implies word_char(#[trigger] s[i]) by {
        assert(i == 0 || i == 1 || i == 2 || i == 3 || i == 4 || i == 5 || i == 6 || i == 7 || i
            == 8 || i == 9);
    }
}

proof fn lemma_big_variantvisitor_is_name()
    ensures
        is_name("VariantVisitor"@),
{
    lemma_keyword_forms();
    reveal_strlit("VariantVisitor");
    let s = "VariantVisitor"@;
    assert(s.len() == 14 && s[0] == 'V');
    assert forall|i: int| 0 <= i < s.len() implies word_char(#[trigger] s[i]) by {
        assert(i == 0 || i == 1 || i == 2 || i == 3 || i == 4 || i == 5 || i == 6 || i == 7 || i
            == 8 || i == 9 || i == 10 || i == 11 || i == 12 || i == 13);
    }
}

proof fn lemma_big_error_is_name()
    ensures
        is_name("Error"@),
{
    lemma_keyword_forms();
    reveal_strlit("Error");
    let s = "Error"@;
    assert(s.len() == 5 && s[0] == 'E');
    assert forall|i: int| 0 <= i < s.len() implies word_char(#[trigger] s[i]) by {
        assert(i == 0 || i == 1 || i == 2 || i == 3 || i == 4);
    }
}

proof fn lemma_std_is_name()
    ensures
        is_name("std"@),
{
    lemma_keyword_forms();
    reveal_strlit("std");
    let s = "std"@;
    assert(s.len() == 3 && s[0] == 's');
    assert forall|i: int| 0 <= i < s.len() implies word_char(#[trigger] s[i]) by {
        assert(i == 0 || i == 1 || i == 2);
    }
}

proof fn lemma_result_is_name()
    ensures
        is_name("result"@),
{
    lemma_keyword_forms();
    reveal_strlit("result");
    let s = "result"@;
    assert(s.len() == 6 && s[0] == 'r');
    assert(s[2] == 's');
    assert forall|i: int| 0 <= i < s.len() implies word_char(#[trigger] s[i]) by {
        assert(i == 0 || i == 1 || i == 2 || i == 3 || i == 4 || i == 5);
    }
}

proof fn lemma_big_result_is_name()
    ensures
        is_name("Result"@),
{
    lemma_keyword_forms();
    reveal_strlit("Result");
    let s = "Result"@;
    assert(s.len() == 6 && s[0] == 'R');
    assert forall|i: int| 0 <= i < s.len() implies word_char(#[trigger] s[i]) by {
        assert(i == 0 || i == 1 || i == 2 || i == 3 || i == 4 || i == 5);
    }
}

proof fn lemma_marker_is_name()
    ensures
        is_name("marker"@),
{
    lemma_keyword_forms();
    reveal_strlit("marker");
    let s = "marker"@;
    assert(s.len() == 6 && s[0] == 'm');
    assert forall|i: int| 0 <= i < s.len() implies word_char(#[trigger] s[i]) by {
        assert(i == 0 || i == 1 || i == 2 || i == 3 || i == 4 || i == 5);
    }
}

proof fn lemma_big_phantomdata_is_name()
    ensures
        is_name("PhantomData"@),
{
    lemma_keyword_forms();
    reveal_strlit("PhantomData");
    let s = "PhantomData"@;
    assert(s.len() == 11 && s[0] == 'P');
    assert forall|i: int| 0 <= i < s.len() implies word_char(#[trigger] s[i]) by {
        assert(i == 0 || i == 1 || i == 2 || i == 3 || i == 4 || i == 5 || i == 6 || i == 7 || i
            == 8 || i == 9 || i == 10);
    }
}

proof fn lemma_default_is_name()
    ensures
        is_name("default"@),
{
    lemma_keyword_forms();
    reveal_strlit("default");
    let s = "default"@;
    assert(s.len() == 7 && s[0] == 'd');
    assert forall|i: int| 0 <= i < s.len() implies word_char(#[trigger] s[i]) by {
        assert(i == 0 || i == 1 || i == 2 || i == 3 || i == 4 || i == 5 || i == 6);
    }
}

proof fn lemma_big_default_is_name()
    ensures
        is_name("Default"@),
{
    lemma_keyword_forms();
    reveal_strlit("Default");
    let s = "Default"@;
    assert(s.len() == 7 && s[0] == 'D');
    assert forall|i: int| 0 <= i < s.len() implies word_char(#[trigger] s[i]) by {
        assert(i == 0 || i == 1 || i == 2 || i == 3 || i == 4 || i == 5 || i == 6);
    }
}

proof fn lemma_end_of_stream_error_is_name()
    ensures
        is_name("end_of_stream_error"@),
{
    lemma_keyword_forms();
    reveal_strlit("end_of_stream_error");
    let s = "end_of_stream_error"@;
    assert(s.len() == 19 && s[0] == 'e');
    assert forall|i: int| 0 <= i < s.len() implies word_char(#[trigger] s[i]) by {
        assert(i == 0 || i == 1 || i == 2 || i == 3 || i == 4 || i == 5 || i == 6 || i == 7 || i
            == 8 || i == 9 || i == 10 || i == 11 || i == 12 || i == 13 || i == 14 || i == 15 || i
            == 16 || i == 17 || i == 18);
    }
}

proof fn lemma_unknown_field_error_is_name()
    ensures
        is_name("unknown_field_error"@),
{
    lemma_keyword_forms();
    reveal_strlit("unknown_field_error");
    let s = "unknown_field_error"@;
    assert(s.len() == 19 && s[0] == 'u');
    assert forall|i: int| 0 <= i < s.len() implies word_char(#[trigger] s[i]) by {
        assert(i == 0 || i == 1 || i == 2 || i == 3 || i == 4 || i == 5 || i == 6 || i == 7 || i
            == 8 || i == 9 || i == 10 || i == 11 || i == 12 || i == 13 || i == 14 || i == 15 || i
            == 16 || i == 17 || i == 18);
    }
}

proof fn lemma_own_visitor_is_name()
    ensures
        is_name("__Visitor"@),
{
    lemma_keyword_forms();
    reveal_strlit("__Visitor");
    let s = "__Visitor"@;
    assert(s.len() == 9 && s[0] == '_');
    assert forall|i: int| 0 <= i < s.len() implies word_char(#[trigger] s[i]) by {
        assert(i == 0 || i == 1 || i == 2 || i == 3 || i == 4 || i == 5 || i == 6 || i == 7 || i
            == 8);
    }
}

proof fn lemma_own_field_is_name()
    ensures
        is_name("__Field"@),
{
    lemma_keyword_forms();
    reveal_strlit("__Field");
    let s = "__Field"@;
    assert(s.len() == 7 && s[0] == '_');
    assert forall|i: int| 0 <= i < s.len() implies word_char(#[trigger] s[i]) by {
        assert(i == 0 || i == 1 || i == 2 || i == 3 || i == 4 || i == 5 || i == 6);
    }
}

proof fn lemma_own_fieldvisitor_is_name()
    ensures
        is_name("__FieldVisitor"@),
{
    lemma_keyword_forms();
    reveal_strlit("__FieldVisitor");
    let s = "__FieldVisitor"@;
    assert(s.len() == 14 && s[0] == '_');
    assert forall|i: int| 0 <= i < s.len() implies word_char(#[trigger] s[i]) by {
        assert(i == 0 || i == 1 || i == 2 || i == 3 || i == 4 || i == 5 || i == 6 || i == 7 || i
            == 8 || i == 9 || i == 10 || i == 11 || i == 12 || i == 13);
    }
}

proof fn lemma_own_v_is_name()
    ensures
        is_name("__V"@),
{
    lemma_keyword_forms();
    reveal_strlit("__V");
    let s = "__V"@;
    assert(s.len() == 3 && s[0] == '_');
    assert forall|i: int| 0 <= i < s.len() implies word_char(#[trigger] s[i]) by {
        assert(i == 0 || i == 1 || i == 2);
    }
}

proof fn lemma_own_d_is_name()
    ensures
        is_name("__D"@),
{
    lemma_keyword_forms();
    reveal_strlit("__D");
    let s = "__D"@;
    assert(s.len() == 3 && s[0] == '_');
    assert forall|i: int| 0 <= i < s.len() implies word_char(#[trigger] s[i]) by {
        assert(i == 0 || i == 1 || i == 2);
    }
}

proof fn lemma_big_e_is_name()
    ensures
        is_name("E"@),
{
    lemma_keyword_forms();
    reveal_strlit("E");
    let s = "E"@;
    assert(s.len() == 1 && s[0] == 'E');
    assert forall|i: int| 0 <= i < s.len() implies word_char(#[trigger] s[i]) by {
        assert(i == 0);
    }
}

proof fn lemma_big_v_is_name()
    ensures
        is_name("V"@),
{
    lemma_keyword_forms();
    reveal_strlit("V");
    let s = "V"@;
    assert(s.len() == 1 && s[0] == 'V');
    assert forall|i: int| 0 <= i < s.len() implies word_char(#[trigger] s[i]) by {
        assert(i == 0);
    }
}

proof fn lemma_big_d_is_name()
    ensures
        is_name("D"@),
{
    lemma_keyword_forms();
    reveal_strlit("D");
    let s = "D"@;
    assert(s.len() == 1 && s[0] == 'D');
    assert forall|i: int| 0 <= i < s.len() implies word_char(#[trigger] s[i]) by {
        assert(i == 0);
    }
}

proof fn lemma_str_is_name()
    ensures
        is_name("str"@),
{
    lemma_keyword_forms();
    reveal_strlit("str");
    let s = "str"@;
    assert(s.len() == 3 && s[0] == 's');
    assert forall|i: int| 0 <= i < s.len() implies word_char(#[trigger] s[i]) by {
        assert(i == 0 || i == 1 || i == 2);
    }
}

proof fn lemma_big_ok_is_name()
    ensures
        is_name("Ok"@),
{
    lemma_keyword_forms();
    reveal_strlit("Ok");
    let s = "Ok"@;
    assert(s.len() == 2 && s[0] == 'O');
    assert forall|i: int| 0 <= i < s.len() implies word_char(#[trigger] s[i]) by {
        assert(i == 0 || i == 1);
    }
}

proof fn lemma_big_err_is_name()
    ensures
        is_name("Err"@),
{
    lemma_keyword_forms();
    reveal_strlit("Err");
    let s = "Err"@;
    assert(s.len() == 3 && s[0] == 'E');
    assert forall|i: int| 0 <= i < s.len() implies word_char(#[trigger] s[i]) by {
        assert(i == 0 || i == 1 || i == 2);
    }
}

proof fn lemma_big_some_is_name()
    ensures
        is_name("Some"@),
{
    lemma_keyword_forms();
    reveal_strlit("Some");
    let s = "Some"@;
    assert(s.len() == 4 && s[0] == 'S');
    assert forall|i: int| 0 <= i < s.len() implies word_char(#[trigger] s[i]) by {
        assert(i == 0 || i == 1 || i == 2 || i == 3);
    }
}

proof fn lemma_big_none_is_name()
    ensures
        is_name("None"@),
{
    lemma_keyword_forms();
    reveal_strlit("None");
    let s = "None"@;
    assert(s.len() == 4 && s[0] == 'N');
    assert forall|i: int| 0 <= i < s.len() implies word_char(#[trigger] s[i]) by {
        assert(i == 0 || i == 1 || i == 2 || i == 3);
    }
}

proof fn lemma_visitor_is_name()
    ensures
        is_name("visitor"@),
{
    lemma_keyword_forms();
    reveal_strlit("visitor");
    let s = "visitor"@;
    assert(s.len() == 7 && s[0] == 'v');
    assert forall|i: int| 0 <= i < s.len() implies word_char(#[trigger] s[i]) by {
        assert(i == 0 || i == 1 || i == 2 || i == 3 || i == 4 || i == 5 || i == 6);
    }
}

proof fn lemma_deserializer_is_name()
    ensures
        is_name("deserializer"@),
{
    lemma_keyword_forms();
    reveal_strlit("deserializer");
    let s = "deserializer"@;
    assert(s.len() == 12 && s[0] == 'd');
    assert forall|i: int| 0 <= i < s.len() implies word_char(#[trigger] s[i]) by {
        assert(i == 0 || i == 1 || i == 2 || i == 3 || i == 4 || i == 5 || i == 6 || i == 7 || i
            == 8 || i == 9 || i == 10 || i == 11);
    }
}

proof fn lemma_value_is_name()
    ensures
        is_name("value"@),
{
    lemma_keyword_forms();
    reveal_strlit("value");
    let s = "value"@;
    assert(s.len() == 5 && s[0] == 'v');
    assert forall|i: int| 0 <= i < s.len() implies word_char(#[trigger] s[i]) by {
        assert(i == 0 || i == 1 || i == 2 || i == 3 || i == 4);
    }
}

proof fn lemma_key_is_name()
    ensures
        is_name("key"@),
{
    lemma_keyword_forms();
    reveal_strlit("key");
    let s = "key"@;
    assert(s.len() == 3 && s[0] == 'k');
    assert forall|i: int| 0 <= i < s.len() implies word_char(#[trigger] s[i]) by {
        assert(i == 0 || i == 1 || i == 2);
    }
}

proof fn lemma_self_is_name()
    ensures
        is_name("self"@),
{
    lemma_keyword_forms();
    reveal_strlit("self");
    let s = "self"@;
    assert(s.len() == 4 && s[0] == 's');
    assert forall|i: int| 0 <= i < s.len() implies word_char(#[trigger] s[i]) by {
        assert(i == 0 || i == 1 || i == 2 || i == 3);
    }
}

proof fn lemma_visit_is_name()
    ensures
        is_name("visit"@),
{
    lemma_keyword_forms();
    reveal_strlit("visit");
    let s = "visit"@;
    assert(s.len() == 5 && s[0] == 'v');
    assert forall|i: int| 0 <= i < s.len() implies word_char(#[trigger] s[i]) by {
        assert(i == 0 || i == 1 || i == 2 || i == 3 || i == 4);
    }
}

proof fn lemma_visit_unit_is_name()
    ensures
        is_name("visit_unit"@),
{
    lemma_keyword_forms();
    reveal_strlit("visit_unit");
    let s = "visit_unit"@;
    assert(s.len() == 10 && s[0] == 'v');
    assert forall|i: int| 0 <= i < s.len() implies word_char(#[trigger] s[i]) by {
        assert(i == 0 || i == 1 || i == 2 || i == 3 || i == 4 || i == 5 || i == 6 || i == 7 || i
            == 8 || i == 9);
    }
}

proof fn lemma_visit_seq_is_name()
    ensures
        is_name("visit_seq"@),
{
    lemma_keyword_forms();
    reveal_strlit("visit_seq");
    let s = "visit_seq"@;
    assert(s.len() == 9 && s[0] == 'v');
    assert forall|i: int| 0 <= i < s.len() implies word_char(#[trigger] s[i]) by {
        assert(i == 0 || i == 1 || i == 2 || i == 3 || i == 4 || i == 5 || i == 6 || i == 7 || i
            == 8);
    }
}

proof fn lemma_visit_map_is_name()
    ensures
        is_name("visit_map"@),
{
    lemma_keyword_forms();
    reveal_strlit("visit_map");
    let s = "visit_map"@;
    assert(s.len() == 9 && s[0] == 'v');
    assert forall|i: int| 0 <= i < s.len() implies word_char(#[trigger] s[i]) by {
        assert(i == 0 || i == 1 || i == 2 || i == 3 || i == 4 || i == 5 || i == 6 || i == 7 || i
            == 8);
    }
}

proof fn lemma_visit_str_is_name()
    ensures
        is_name("visit_str"@),
{
    lemma_keyword_forms();
    reveal_strlit("visit_str");
    let s = "visit_str"@;
    assert(s.len() == 9 && s[0] == 'v');
    assert forall|i: int| 0 <= i < s.len() implies word_char(#[trigger] s[i]) by {
        assert(i == 0 || i == 1 || i == 2 || i == 3 || i == 4 || i == 5 || i == 6 || i == 7 || i
            == 8);
    }
}

proof fn lemma_visit_key_is_name()
    ensures
        is_name("visit_key"@),
{
    lemma_keyword_forms();
    reveal_strlit("visit_key");
    let s = "visit_key"@;
    assert(s.len() == 9 && s[0] == 'v');
    assert forall|i: int| 0 <= i < s.len() implies word_char(#[trigger] s[i]) by {
        assert(i == 0 || i == 1 || i == 2 || i == 3 || i == 4 || i == 5 || i == 6 || i == 7 || i
            == 8);
    }
}

proof fn lemma_visit_value_is_name()
    ensures
        is_name("visit_value"@),
{
    lemma_keyword_forms();
    reveal_strlit("visit_value");
    let s = "visit_value"@;
    assert(s.len() == 11 && s[0] == 'v');
    assert forall|i: int| 0 <= i < s.len() implies word_char(#[trigger] s[i]) by {
        assert(i == 0 || i == 1 || i == 2 || i == 3 || i == 4 || i == 5 || i == 6 || i == 7 || i
            == 8 || i == 9 || i == 10);
    }
}

proof fn lemma_visit_variant_is_name()
    ensures
        is_name("visit_variant"@),
{
    lemma_keyword_forms();
    reveal_strlit("visit_variant");
    let s = "visit_variant"@;
    assert(s.len() == 13 && s[0] == 'v');
    assert forall|i: int| 0 <= i < s.len() implies word_char(#[trigger] s[i]) by {
        assert(i == 0 || i == 1 || i == 2 || i == 3 || i == 4 || i == 5 || i == 6 || i == 7 || i
            == 8 || i == 9 || i == 10 || i == 11 || i == 12);
    }
}

proof fn lemma_missing_field_is_name()
    ensures
        is_name("missing_field"@),
{
    lemma_keyword_forms();
    reveal_strlit("missing_field");
    let s = "missing_field"@;
    assert(s.len() == 13 && s[0] == 'm');
    assert forall|i: int| 0 <= i < s.len() implies word_char(#[trigger] s[i]) by {
        assert(i == 0 || i == 1 || i == 2 || i == 3 || i == 4 || i == 5 || i == 6 || i == 7 || i
            == 8 || i == 9 || i == 10 || i == 11 || i == 12);
    }
}

proof fn lemma_end_is_name()
    ensures
        is_name("end"@),
{
    lemma_keyword_forms();
    reveal_strlit("end");
    let s = "end"@;
    assert(s.len() == 3 && s[0] == 'e');
    assert forall|i: int| 0 <= i < s.len() implies word_char(#[trigger] s[i]) by {
        assert(i == 0 || i == 1 || i == 2);
    }
}

proof fn lemma_visit_enum_is_name()
    ensures
        is_name("visit_enum"@),
{
    lemma_keyword_forms();
    reveal_strlit("visit_enum");
    let s = "visit_enum"@;
    assert(s.len() == 10 && s[0] == 'v');
    assert forall|i: int| 0 <= i < s.len() implies word_char(#[trigger] s[i]) by {
        assert(i == 0 || i == 1 || i == 2 || i == 3 || i == 4 || i == 5 || i == 6 || i == 7 || i
            == 8 || i == 9);
    }
}

proof fn lemma_visit_named_unit_is_name()
    ensures
        is_name("visit_named_unit"@),
{
    lemma_keyword_forms();
    reveal_strlit("visit_named_unit");
    let s = "visit_named_unit"@;
    assert(s.len() == 16 && s[0] == 'v');
    assert forall|i: int| 0 <= i < s.len() implies word_char(#[trigger] s[i]) by {
        assert(i == 0 || i == 1 || i == 2 || i == 3 || i == 4 || i == 5 || i == 6 || i == 7 || i
            == 8 || i == 9 || i == 10 || i == 11 || i == 12 || i == 13 || i == 14 || i == 15);
    }
}

proof fn lemma_visit_named_seq_is_name()
    ensures
        is_name("visit_named_seq"@),
{
    lemma_keyword_forms();
    reveal_strlit("visit_named_seq");
    let s = "visit_named_seq"@;
    assert(s.len() == 15 && s[0] == 'v');
    assert forall|i: int| 0 <= i < s.len() implies word_char(#[trigger] s[i]) by {
        assert(i == 0 || i == 1 || i == 2 || i == 3 || i == 4 || i == 5 || i == 6 || i == 7 || i
            == 8 || i == 9 || i == 10 || i == 11 || i == 12 || i == 13 || i == 14);
    }
}

proof fn lemma_visit_named_map_is_name()
    ensures
        is_name("visit_named_map"@),
{
    lemma_keyword_forms();
    reveal_strlit("visit_named_map");
    let s = "visit_named_map"@;
    assert(s.len() == 15 && s[0] == 'v');
    assert forall|i: int| 0 <= i < s.len() implies word_char(#[trigger] s[i]) by {
        assert(i == 0 || i == 1 || i == 2 || i == 3 || i == 4 || i == 5 || i == 6 || i == 7 || i
            == 8 || i == 9 || i == 10 || i == 11 || i == 12 || i == 13 || i == 14);
    }
}

proof fn lemma_deserialize_is_name()
    ensures
        is_name("deserialize"@),
{
    lemma_keyword_forms();
    reveal_strlit("deserialize");
    let s = "deserialize"@;
    assert(s.len() == 11 && s[0] == 'd');
    assert forall|i: int| 0 <= i < s.len() implies word_char(#[trigger] s[i]) by {
        assert(i == 0 || i == 1 || i == 2 || i == 3 || i == 4 || i == 5 || i == 6 || i == 7 || i
            == 8 || i == 9 || i == 10);
    }
}

/// All the names that derived code gives, or takes from `serde` and `std`.
pub proof fn lemma_names()
    ensures
        is_name("serde"@),
        is_name("de"@),
        is_name("Deserialize"@),
        is_name("Deserializer"@),
        is_name("Visitor"@),
        is_name("EnumVisitor"@),
        is_name("SeqVisitor"@),
        is_name("MapVisitor"@),
        is_name("VariantVisitor"@),
        is_name("Error"@),
        is_name("std"@),
        is_name("result"@),
        is_name("Result"@),
        is_name("marker"@),
        is_name("PhantomData"@),
        is_name("default"@),
        is_name("Default"@),
        is_name("end_of_stream_error"@),
        is_name("unknown_field_error"@),
        is_name("__Visitor"@),
        is_name("__Field"@),
        is_name("__FieldVisitor"@),
        is_name("__V"@),
        is_name("__D"@),
        is_name("E"@),
        is_name("V"@),
        is_name("D"@),
        is_name("str"@),
        is_name("Ok"@),
        is_name("Err"@),
        is_name("Some"@),
        is_name("None"@),
        is_name("visitor"@),
        is_name("deserializer"@),
        is_name("value"@),
        is_name("key"@),
        is_name("self"@),
        is_name("visit"@),
        is_name("visit_unit"@),
        is_name("visit_seq"@),
        is_name("visit_map"@),
        is_name("visit_str"@),
        is_name("visit_key"@),
        is_name("visit_value"@),
        is_name("visit_variant"@),
        is_name("missing_field"@),
        is_name("end"@),
        is_name("visit_enum"@),
        is_name("visit_named_unit"@),
        is_name("visit_named_seq"@),
        is_name("visit_named_map"@),
        is_name("deserialize"@),
{
    lemma_serde_is_name();
    lemma_de_is_name();
    lemma_big_deserialize_is_name();
    lemma_big_deserializer_is_name();
    lemma_big_visitor_is_name();
    lemma_big_enumvisitor_is_name();
    lemma_big_seqvisitor_is_name();
    lemma_big_mapvisitor_is_name();
    lemma_big_variantvisitor_is_name();
    lemma_big_error_is_name();
    lemma_std_is_name();
    lemma_result_is_name();
    lemma_big_result_is_name();
    lemma_marker_is_name();
    lemma_big_phantomdata_is_name();
    lemma_default_is_name();
    lemma_big_default_is_name();
    lemma_end_of_stream_error_is_name();
    lemma_unknown_field_error_is_name();
    lemma_own_visitor_is_name();
    lemma_own_field_is_name();
    lemma_own_fieldvisitor_is_name();
    lemma_own_v_is_name();
    lemma_own_d_is_name();
    lemma_big_e_is_name();
    lemma_big_v_is_name();
    lemma_big_d_is_name();
    lemma_str_is_name();
    lemma_big_ok_is_name();
    lemma_big_err_is_name();
    lemma_big_some_is_name();
    lemma_big_none_is_name();
    lemma_visitor_is_name();
    lemma_deserializer_is_name();
    lemma_value_is_name();
    lemma_key_is_name();
    lemma_self_is_name();
    lemma_visit_is_name();
    lemma_visit_unit_is_name();
    lemma_visit_seq_is_name();
    lemma_visit_map_is_name();
    lemma_visit_str_is_name();
    lemma_visit_key_is_name();
    lemma_visit_value_is_name();
    lemma_visit_variant_is_name();
    lemma_missing_field_is_name();
    lemma_end_is_name();
    lemma_visit_enum_is_name();
    lemma_visit_named_unit_is_name();
    lemma_visit_named_seq_is_name();
    lemma_visit_named_map_is_name();
    lemma_deserialize_is_name();
}

} // verus!
