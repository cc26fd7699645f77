use vstd::prelude::*;

verus! {

/// The severity of a log record.
#[derive(Clone, Copy, PartialEq, Eq, Structural, Debug)]
pub enum LogType {
    Info,
    Warn,
    Erro,
}

impl LogType {
    /// The four-letter token written for this severity.
    pub open spec fn token(self) -> Seq<char> {
        match self {
            LogType::Info => seq!['I', 'N', 'F', 'O'],
            LogType::Warn => seq!['W', 'A', 'R', 'N'],
            LogType::Erro => seq!['E', 'R', 'R', 'O'],
        }
    }

    /// The token of this severity as text.
    pub fn as_str(&self) -> (r: &'static str)
        ensures
            r@ == self.token(),
    {
        match self {
            LogType::Info => {
                proof {
                    reveal_strlit("INFO");
                }
                "INFO"
            },
            LogType::Warn => {
                proof {
                    reveal_strlit("WARN");
                }
                "WARN"
            },
            LogType::Erro => {
                proof {
                    reveal_strlit("ERRO");
                }
                "ERRO"
            },
        }
    }
}

} // verus!
