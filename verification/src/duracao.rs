//! Duracao estendida.
//!
//! Uma consulta a uma tabua pode pedir um horizonte finito de periodos ou
//! um futuro ilimitado. So esses dois estados sao representaveis: nao ha
//! sentinela invalida, de modo que nenhuma operacao publica precisa
//! aborta-la nem pode devolve-la.

use vstd::prelude::*;

verus! {

/// Um numero nao negativo de periodos, ou o futuro ilimitado.
#[derive(Clone, Copy, Debug, PartialEq, Eq, Structural)]
pub enum DuracaoEstendida {
    Finita(u16),
    Infinita,
}

/// Ordem das duracoes: as finitas comparam pelo valor e o infinito e
/// maior que todas.
pub open spec fn menor_igual_espec(a: DuracaoEstendida, b: DuracaoEstendida) -> bool {
    match (a, b) {
        (DuracaoEstendida::Finita(x), DuracaoEstendida::Finita(y)) => x <= y,
        (DuracaoEstendida::Finita(_), DuracaoEstendida::Infinita) => true,
        (DuracaoEstendida::Infinita, DuracaoEstendida::Finita(_)) => false,
        (DuracaoEstendida::Infinita, DuracaoEstendida::Infinita) => true,
    }
}

/// A menor de duas duracoes.
pub open spec fn minimo_espec(a: DuracaoEstendida, b: DuracaoEstendida) -> DuracaoEstendida {
    if menor_igual_espec(a, b) {
        a
    } else {
        b
    }
}

/// A maior de duas duracoes.
pub open spec fn maximo_espec(a: DuracaoEstendida, b: DuracaoEstendida) -> DuracaoEstendida {
    if menor_igual_espec(a, b) {
        b
    } else {
        a
    }
}

impl DuracaoEstendida {
    /// O valor truncado a um teto finito: uma duracao infinita vale o
    /// proprio teto.
    pub open spec fn truncada_espec(self, teto: int) -> int {
        match self {
            DuracaoEstendida::Finita(v) => if v <= teto {
                v as int
            } else {
                teto
            },
            DuracaoEstendida::Infinita => teto,
        }
    }

    /// Diz se a duracao e o futuro ilimitado.
    pub fn eh_infinita(&self) -> (r: bool)
        ensures
            r == (*self is Infinita),
    {
        match self {
            DuracaoEstendida::Finita(_) => false,
            DuracaoEstendida::Infinita => true,
        }
    }

    /// O valor de uma duracao finita.
    pub fn valor_finito(&self) -> (r: Option<u16>)
        ensures
            match *self {
                DuracaoEstendida::Finita(v) => r == Some(v),
                DuracaoEstendida::Infinita => r is None,
            },
    {
        match self {
            DuracaoEstendida::Finita(v) => Some(*v),
            DuracaoEstendida::Infinita => None,
        }
    }

    /// Compara duas duracoes pela ordem estendida.
    pub fn menor_igual(self, outra: DuracaoEstendida) -> (r: bool)
        ensures
            r == menor_igual_espec(self, outra),
    {
        match (self, outra) {
            (DuracaoEstendida::Finita(x), DuracaoEstendida::Finita(y)) => x <= y,
            (DuracaoEstendida::Finita(_), DuracaoEstendida::Infinita) => true,
            (DuracaoEstendida::Infinita, DuracaoEstendida::Finita(_)) => false,
            (DuracaoEstendida::Infinita, DuracaoEstendida::Infinita) => true,
        }
    }

    /// A menor de duas duracoes.
    pub fn minimo(self, outra: DuracaoEstendida) -> (r: DuracaoEstendida)
        ensures
            r == minimo_espec(self, outra),
    {
        if self.menor_igual(outra) {
            self
        } else {
            outra
        }
    }

    /// A maior de duas duracoes.
    pub fn maximo(self, outra: DuracaoEstendida) -> (r: DuracaoEstendida)
        ensures
            r == maximo_espec(self, outra),
    {
        if self.menor_igual(outra) {
            outra
        } else {
            self
        }
    }
}

} // verus!
