//! The transfer protocols.

use vstd::prelude::*;

use crate::pieces::{trim, trimmed};
use crate::text::{ascii_lowercase, chars_of, debug_quoted, plus, quoted, same_text, string_of, to_ascii_lower};

verus! {

#[derive(Debug, Clone, Copy, PartialEq, Eq, Hash, Structural)]
pub enum Protocol {
    Ftp,
    Sftp,
}

/// The protocol that a word names; `ftps` is secure-by-default FTP.
pub open spec fn protocol_named(word: Seq<char>) -> Option<Protocol> {
    if word == "ftp"@ || word == "ftps"@ {
        Some(Protocol::Ftp)
    } else if word == "sftp"@ || word == "ssh"@ {
        Some(Protocol::Sftp)
    } else {
        None
    }
}

/// The word that is looked up for a text.
pub open spec fn protocol_word(s: Seq<char>) -> Seq<char> {
    ascii_lowercase(trimmed(s))
}

impl Protocol {
    pub open spec fn spec_default_port(self) -> u16 {
        match self {
            Protocol::Ftp => 21,
            Protocol::Sftp => 22,
        }
    }

    pub fn default_port(self) -> (r: u16)
        ensures
            r == self.spec_default_port(),
    {
        match self {
            Protocol::Ftp => 21,
            Protocol::Sftp => 22,
        }
    }

    pub open spec fn name(self) -> Seq<char> {
        match self {
            Protocol::Ftp => "ftp"@,
            Protocol::Sftp => "sftp"@,
        }
    }

    /// The protocol in lower case.
    pub fn as_str(self) -> (r: &'static str)
        ensures
            r@ == self.name(),
    {
        match self {
            Protocol::Ftp => "ftp",
            Protocol::Sftp => "sftp",
        }
    }

    pub fn to_string(self) -> (r: String)
        ensures
            r@ == self.name(),
    {
        self.as_str().to_owned()
    }

    /// Read a protocol, ignoring case and surrounding white space.
    pub fn parse(s: &str) -> (r: Result<Protocol, String>)
        ensures
            r is Ok <==> protocol_named(protocol_word(s@)) is Some,
            r matches Ok(p) ==> protocol_named(protocol_word(s@)) == Some(p),
            r matches Err(e) ==> e@ == "unknown protocol: "@ + debug_quoted(protocol_word(s@)),
    {
        let chars: Vec<char> = chars_of(s);
        let word: String = string_of(&to_ascii_lower(trim(&chars)));
        if same_text(word.as_str(), "ftp") || same_text(word.as_str(), "ftps") {
            Ok(Protocol::Ftp)
        } else if same_text(word.as_str(), "sftp") || same_text(word.as_str(), "ssh") {
            Ok(Protocol::Sftp)
        } else {
            Err(plus("unknown protocol: ".to_owned(), quoted(word.as_str()).as_str()))
        }
    }
}

impl std::str::FromStr for Protocol {
    type Err = String;

    fn from_str(s: &str) -> (r: Result<Self, Self::Err>)
        ensures
            r is Ok <==> protocol_named(protocol_word(s@)) is Some,
            r matches Ok(p) ==> protocol_named(protocol_word(s@)) == Some(p),
            r matches Err(e) ==> e@ == "unknown protocol: "@ + debug_quoted(protocol_word(s@)),
    {
        Protocol::parse(s)
    }
}

/// The name of a protocol reads back as that protocol.
pub proof fn protocol_name_reads_back(p: Protocol)
    ensures
        protocol_named(protocol_word(p.name())) == Some(p),
{
    reveal_strlit("ftp");
    reveal_strlit("sftp");
    reveal_strlit("ftps");
    reveal_strlit("ssh");
    let name = p.name();
    crate::pieces::lemma_drop_while(name, crate::pieces::white(), 0);
    assert(name.skip(0) =~= name);
    crate::pieces::lemma_drop_end_while(name, crate::pieces::white(), name.len() as int);
    assert(name.take(name.len() as int) =~= name);
    assert(ascii_lowercase(name) =~= name);
    assert("sftp"@.len() == 4 && "ftp"@.len() == 3 && "ftps"@.len() == 4);
    assert("sftp"@[0] == 's' && "ftps"@[0] == 'f');
}

} // verus!
