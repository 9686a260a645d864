//! Periodicidade de uma tabua: quantos periodos de decremento cabem em um
//! ano. A ordem derivada segue a da declaracao, da periodicidade mais fina
//! (mensal) para a mais grossa (anual) -- a mesma ordem que a comparacao
//! decrescente pelo numero de periodos por ano daria.

use vstd::prelude::*;

verus! {

/// Granularidade temporal das taxas de uma tabua.
#[derive(Clone, Copy, Debug, PartialEq, Eq, Structural, PartialOrd, Ord)]
pub enum Periodicidade {
    Mensal,
    Bimestral,
    Trimestral,
    Quadrimestral,
    Semestral,
    Anual,
}

impl Periodicidade {
    /// Quantos periodos desta periodicidade ha em um ano.
    pub open spec fn quantidade_espec(self) -> int {
        match self {
            Periodicidade::Mensal => 12,
            Periodicidade::Bimestral => 6,
            Periodicidade::Trimestral => 4,
            Periodicidade::Quadrimestral => 3,
            Periodicidade::Semestral => 2,
            Periodicidade::Anual => 1,
        }
    }

    /// Quantos periodos desta periodicidade ha em um ano.
    pub fn quantidade_periodos_1_ano(&self) -> (r: u16)
        ensures
            r == self.quantidade_espec(),
            1 <= r <= 12,
    {
        match self {
            Periodicidade::Mensal => 12,
            Periodicidade::Bimestral => 6,
            Periodicidade::Trimestral => 4,
            Periodicidade::Quadrimestral => 3,
            Periodicidade::Semestral => 2,
            Periodicidade::Anual => 1,
        }
    }
}

} // verus!
