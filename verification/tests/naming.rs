use why3_ptree::ident::{
    self, attribute_of, create_attribute, funlit, sn_decode, Notation,
};

#[test]
fn op_names() {
    assert_eq!(ident::op_infix("+"), "infix +");
    assert_eq!(ident::op_prefix("-"), "prefix -");
    assert_eq!(ident::op_get(""), "mixfix []");
    assert_eq!(ident::op_set(""), "mixfix []<-");
    assert_eq!(ident::op_update("'"), "mixfix [<-]'");
    assert_eq!(ident::op_cut(""), "mixfix [..]");
    assert_eq!(ident::op_lcut(""), "mixfix [.._]");
    assert_eq!(ident::op_rcut(""), "mixfix [_..]");
    assert_eq!(ident::op_equ(), "infix =");
    assert_eq!(ident::op_neq(), "infix <>");
    assert_eq!(ident::op_tight("!"), "prefix !");
}

#[test]
fn decode_infix_and_prefix() {
    assert_eq!(sn_decode("infix +"), Notation::Infix("+".into()));
    assert_eq!(sn_decode("infix <>'"), Notation::Infix("<>'".into()));
    assert_eq!(sn_decode("prefix -"), Notation::Prefix("-".into()));
    assert_eq!(sn_decode("prefix !"), Notation::Tight("!".into()));
    assert_eq!(sn_decode("prefix ?!"), Notation::Tight("?!".into()));
    assert_eq!(sn_decode("prefix !+"), Notation::Prefix("!+".into()));
}

#[test]
fn decode_mixfix() {
    assert_eq!(sn_decode("mixfix []"), Notation::Get("".into()));
    assert_eq!(sn_decode("mixfix []'"), Notation::Get("'".into()));
    assert_eq!(sn_decode("mixfix []<-"), Notation::SetElt("".into()));
    assert_eq!(sn_decode("mixfix [<-]"), Notation::Update("".into()));
    assert_eq!(sn_decode("mixfix [..]"), Notation::Cut("".into()));
    assert_eq!(sn_decode("mixfix [.._]"), Notation::Lcut("".into()));
    assert_eq!(sn_decode("mixfix [_..]"), Notation::Rcut("".into()));
}

#[test]
fn decode_words() {
    assert_eq!(sn_decode("plus"), Notation::Word("plus".into()));
    assert_eq!(sn_decode("infix"), Notation::Word("infix".into()));
    assert_eq!(sn_decode("infix x"), Notation::Word("infix x".into()));
    assert_eq!(sn_decode("mixfix {}"), Notation::Word("mixfix {}".into()));
    // a suffix after the notation is kept, after the notation as written
    assert_eq!(sn_decode("infix +_x"), Notation::Word("(+)_x".into()));
    assert_eq!(sn_decode("infix *_a"), Notation::Word("( * )_a".into()));
    assert_eq!(sn_decode("infix +x"), Notation::Word("infix +x".into()));
}

#[test]
fn notation_text_of_operators() {
    assert_eq!(ident::notation_string(&Notation::Infix("+".into())), "(+)");
    assert_eq!(ident::notation_string(&Notation::Infix("*".into())), "( * )");
    assert_eq!(ident::notation_string(&Notation::Prefix("-".into())), "(-_)");
    assert_eq!(ident::notation_string(&Notation::SetElt("".into())), "([]<-)");
}

#[test]
fn attributes_keep_their_text() {
    let a = attribute_of("mlw:reference_var");
    assert_eq!(a.as_str(), "mlw:reference_var");
    assert_eq!(funlit().as_str(), "funlit");
    let b = create_attribute(internment::ArcIntern::from("model_trace"));
    assert_eq!(b.as_str(), "model_trace");
    assert_eq!(b.clone(), b);
}
