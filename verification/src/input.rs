//! Where secrets and passphrases come from, and what is made of the input.

use crate::error::{CanError, Failure};
use crate::secret::{draw_failed, drawn, make_random, SecretBytes};
use crate::text::{chars_of, string_of};
use vstd::prelude::*;
use vstd::slice::slice_to_vec;

verus! {

/// How many bytes of a secret are read from a pipe, unless told otherwise.
pub const SECRET_FROM_PIPE_DEFAULT_LENGTH: usize = 4096;

/// What to show when something hidden is to be typed.
#[derive(Debug)]
pub struct Prompt {
    pub message: String,
    pub help: String,
    /// Present where it is to be typed twice.
    pub confirmation: Option<Confirmation>,
}

/// What to show when something is to be typed once more.
#[derive(Debug)]
pub struct Confirmation {
    pub message: String,
    /// What is said if the two differ.
    pub mismatch: String,
}

/// What a prompt shows: message, help, and, where there is a confirmation, its
/// message and what is said of a mismatch.
#[verifier::ext_equal]
pub struct PromptTexts {
    pub message: Seq<char>,
    pub help: Seq<char>,
    pub confirmation: Option<(Seq<char>, Seq<char>)>,
}

impl View for Prompt {
    type V = PromptTexts;

    open spec fn view(&self) -> PromptTexts {
        PromptTexts {
            message: self.message@,
            help: self.help@,
            confirmation: match self.confirmation {
                Some(c) => Some((c.message@, c.mismatch@)),
                None => None,
            },
        }
    }
}

/// Where a secret is to be had.
#[derive(Debug)]
pub enum SecretSource {
    /// Here it is.
    Generated(SecretBytes),
    /// From whoever is at the terminal.
    Prompt(Prompt),
    /// From standard input, up to so many bytes.
    Pipe(usize),
}

/// Where a passphrase is to be had.
#[derive(Debug)]
pub enum PassphraseSource {
    /// From whoever is at the terminal.
    Prompt(Prompt),
    /// From standard input, one line.
    Pipe,
}

/// What asking for a secret shows.
pub open spec fn secret_prompt() -> PromptTexts {
    PromptTexts {
        message: "Secret:"@,
        help: "Type the secret (twice). Use Ctrl+R to toggle visibility."@,
        confirmation: Some(("Re-enter secret:"@, "Values don't match"@)),
    }
}

/// What asking for a passphrase shows: for a new one, which is to be
/// confirmed, or for one that exists.
pub open spec fn passphrase_prompt(confirm: bool) -> PromptTexts {
    if confirm {
        PromptTexts {
            message: "Passphrase:"@,
            help: "Type a new passphrase (twice). Use Ctrl+R to toggle visibility."@,
            confirmation: Some(("Re-enter passphrase:"@, "Values don't match"@)),
        }
    } else {
        PromptTexts {
            message: "Passphrase:"@,
            help: "Type the passphrase. Use Ctrl+R to toggle visibility."@,
            confirmation: None,
        }
    }
}

/// Where a secret is to be had: random bytes of the given length where they
/// are asked for, else a terminal, else a pipe.
pub fn read_secret(length: usize, generate: bool, stdin_is_terminal: bool) -> (source: Result<
    SecretSource,
    CanError,
>)
    requires
        generate ==> length <= isize::MAX,
    ensures
        if generate {
            match source {
                Ok(SecretSource::Generated(secret)) => secret@.len() == length && drawn(secret@),
                Ok(_) => false,
                Err(e) => e@ == Failure::<Seq<char>>::RandomSecret && draw_failed(length as nat),
            }
        } else if stdin_is_terminal {
            source matches Ok(SecretSource::Prompt(prompt)) && prompt@ == secret_prompt()
        } else {
            source matches Ok(SecretSource::Pipe(limit)) && limit == length
        },
{
    if generate {
        return match make_random(length) {
            Ok(secret) => Ok(SecretSource::Generated(secret)),
            Err(e) => Err(e),
        };
    }
    if stdin_is_terminal {
        return Ok(
            SecretSource::Prompt(
                Prompt {
                    message: "Secret:".to_owned(),
                    help: "Type the secret (twice). Use Ctrl+R to toggle visibility.".to_owned(),
                    confirmation: Some(
                        Confirmation {
                            message: "Re-enter secret:".to_owned(),
                            mismatch: "Values don't match".to_owned(),
                        },
                    ),
                },
            ),
        );
    }
    Ok(SecretSource::Pipe(length))
}

/// Where a passphrase is to be had: from a terminal, to be typed twice where
/// `confirm` says so, or else from a pipe.
pub fn prompt_passphrase(confirm: bool, stdin_is_terminal: bool) -> (source: PassphraseSource)
    ensures
        if stdin_is_terminal {
            source matches PassphraseSource::Prompt(prompt) && prompt@ == passphrase_prompt(
                confirm,
            )
        } else {
            source is Pipe
        },
{
    if !stdin_is_terminal {
        return PassphraseSource::Pipe;
    }
    let message = "Passphrase:".to_owned();
    if confirm {
        PassphraseSource::Prompt(
            Prompt {
                message,
                help: "Type a new passphrase (twice). Use Ctrl+R to toggle visibility.".to_owned(),
                confirmation: Some(
                    Confirmation {
                        message: "Re-enter passphrase:".to_owned(),
                        mismatch: "Values don't match".to_owned(),
                    },
                ),
            },
        )
    } else {
        PassphraseSource::Prompt(
            Prompt {
                message,
                help: "Type the passphrase. Use Ctrl+R to toggle visibility.".to_owned(),
                confirmation: None,
            },
        )
    }
}

/// Whether `c` ends a line.
pub open spec fn is_line_end(c: char) -> bool {
    c == '\n' || c == '\r'
}

/// `line` without the line ends behind it.
pub open spec fn chomped(line: Seq<char>) -> Seq<char>
    decreases line.len(),
{
    if line.len() > 0 && is_line_end(line.last()) {
        chomped(line.drop_last())
    } else {
        line
    }
}

/// The passphrase in a line of standard input, which is empty only at the end
/// of input.
pub open spec fn line_passphrase(line: Seq<char>) -> Result<Seq<char>, Failure<Seq<char>>> {
    if line.len() == 0 {
        Err(Failure::MissingPassphrase)
    } else if chomped(line).len() == 0 {
        Err(Failure::EmptyPassphrase)
    } else {
        Ok(chomped(line))
    }
}

/// The passphrase in a line of standard input: the line without its line ends.
/// The line is empty only at the end of input.
pub fn read_passphrase_from_pipe(line: &str) -> (passphrase: Result<String, CanError>)
    ensures
        match passphrase {
            Ok(p) => line_passphrase(line@) == Ok::<Seq<char>, Failure<Seq<char>>>(p@),
            Err(e) => line_passphrase(line@) == Err::<Seq<char>, Failure<Seq<char>>>(e@),
        },
{
    let mut chars = chars_of(line);
    if chars.len() == 0 {
        return Err(Failure::MissingPassphrase);
    }
    while chars.len() > 0 && (chars[chars.len() - 1] == '\n' || chars[chars.len() - 1] == '\r')
        invariant
            chomped(chars@) == chomped(line@),
        decreases chars.len(),
    {
        let ghost before = chars@;
        chars.pop();
        assert(chars@ =~= before.drop_last());
    }
    if chars.len() == 0 {
        return Err(Failure::EmptyPassphrase);
    }
    Ok(string_of(&chars))
}

/// The secret in what was read from a pipe: `data` are the bytes up to the
/// limit, and `more` says whether there was another one.
pub fn read_secret_from_pipe(limit: usize, data: Vec<u8>, more: bool) -> (secret: Result<
    SecretBytes,
    CanError,
>)
    ensures
        match secret {
            Ok(s) => !more && s@ == data@,
            Err(e) => more && e@ == Failure::<Seq<char>>::TooMuchData(limit),
        },
{
    if more {
        return Err(Failure::TooMuchData(limit));
    }
    Ok(SecretBytes::from(data))
}

/// The secret that a text is: its UTF-8 bytes.
pub fn secret_of_text(text: &str) -> (secret: SecretBytes)
    ensures
        secret@ == vstd::utf8::encode_utf8(text@),
{
    SecretBytes::from(slice_to_vec(text.as_bytes()))
}

proof fn lemma_chomped(text: Seq<char>, ends: Seq<char>)
    requires
        text.len() > 0,
        !is_line_end(text.last()),
        forall|i: int| 0 <= i < ends.len() ==> is_line_end(#[trigger] ends[i]),
    ensures
        chomped(text + ends) == text,
    decreases ends.len(),
{
    if ends.len() == 0 {
        assert(text + ends =~= text);
    } else {
        assert((text + ends).last() == ends.last());
        assert((text + ends).drop_last() =~= text + ends.drop_last());
        lemma_chomped(text, ends.drop_last());
    }
}

/// A passphrase line gives its text up to the line ends behind it, whatever
/// they are.
pub proof fn law_line_ends_do_not_count(text: Seq<char>, ends: Seq<char>)
    requires
        text.len() > 0,
        !is_line_end(text.last()),
        forall|i: int| 0 <= i < ends.len() ==> is_line_end(#[trigger] ends[i]),
    ensures
        line_passphrase(text + ends) == Ok::<Seq<char>, Failure<Seq<char>>>(text),
{
    lemma_chomped(text, ends);
}

/// A line of nothing but line ends holds no passphrase, and no line is none.
pub proof fn law_blank_lines_hold_no_passphrase(ends: Seq<char>)
    requires
        forall|i: int| 0 <= i < ends.len() ==> is_line_end(#[trigger] ends[i]),
    ensures
        ends.len() > 0 ==> line_passphrase(ends) == Err::<Seq<char>, Failure<Seq<char>>>(
            Failure::EmptyPassphrase,
        ),
        ends.len() == 0 ==> line_passphrase(ends) == Err::<Seq<char>, Failure<Seq<char>>>(
            Failure::MissingPassphrase,
        ),
{
    lemma_blank(ends);
}

proof fn lemma_blank(ends: Seq<char>)
    requires
        forall|i: int| 0 <= i < ends.len() ==> is_line_end(#[trigger] ends[i]),
    ensures
        chomped(ends).len() == 0,
    decreases ends.len(),
{
    if ends.len() > 0 {
        assert(is_line_end(ends[ends.len() - 1]));
        assert forall|i: int| 0 <= i < ends.drop_last().len() implies is_line_end(
            #[trigger] ends.drop_last()[i],
        ) by {
            assert(ends.drop_last()[i] == ends[i]);
        }
        lemma_blank(ends.drop_last());
    }
}

/// Line feeds and carriage returns end a line, and nothing else does.
pub proof fn law_line_ends(c: char)
    ensures
        is_line_end(c) <==> c as u32 == 10 || c as u32 == 13,
{
}

/// A prompt shows what its fields hold.
pub proof fn law_prompts_show_what_they_hold(prompt: Prompt)
    ensures
        prompt@.message == prompt.message@,
        prompt@.help == prompt.help@,
        prompt.confirmation is None <==> prompt@.confirmation is None,
        prompt.confirmation is Some ==> prompt@.confirmation == Some(
            (prompt.confirmation->0.message@, prompt.confirmation->0.mismatch@),
        ),
{
}

} // verus!
