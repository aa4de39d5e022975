use vstd::prelude::*;

verus! {

/// The symbolic role of a single input character within the grammar.
///
/// A token is derived from one character alone; the comment marker is
/// recognized as a token but never given special treatment by the state
/// machine, so `;` flows through as an ordinary character.
pub enum InifTokens {
    CategoryStart,
    CategoryEnd,
    Eq,
    Comment,
    Undef,
}

/// The character that a token stands for; `Undef` stands for no character
/// in particular and is represented by a space.
pub open spec fn spec_token_char(t: InifTokens) -> char {
    match t {
        InifTokens::CategoryStart => '[',
        InifTokens::CategoryEnd => ']',
        InifTokens::Eq => '=',
        InifTokens::Comment => ';',
        InifTokens::Undef => ' ',
    }
}

/// The token that classifies a character; everything that is not one of
/// the four marker characters is `Undef`.
pub open spec fn spec_char_token(ch: char) -> InifTokens {
    if ch == '[' {
        InifTokens::CategoryStart
    } else if ch == ']' {
        InifTokens::CategoryEnd
    } else if ch == '=' {
        InifTokens::Eq
    } else if ch == ';' {
        InifTokens::Comment
    } else {
        InifTokens::Undef
    }
}

impl InifTokens {
    /// The character this token stands for.
    pub fn val(self) -> (r: char)
        ensures
            r == spec_token_char(self),
    {
        match self {
            InifTokens::CategoryStart => '[',
            InifTokens::CategoryEnd => ']',
            InifTokens::Eq => '=',
            InifTokens::Comment => ';',
            InifTokens::Undef => ' ',
        }
    }

    /// Classify one character.
    pub fn to(ch: char) -> (r: InifTokens)
        ensures
            r == spec_char_token(ch),
    {
        if ch == '[' {
            InifTokens::CategoryStart
        } else if ch == ']' {
            InifTokens::CategoryEnd
        } else if ch == '=' {
            InifTokens::Eq
        } else if ch == ';' {
            InifTokens::Comment
        } else {
            InifTokens::Undef
        }
    }
}

} // verus!
