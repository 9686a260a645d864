//! Superficie comum das tabuas.
//!
//! Os tres modelos -- uma vida e um decremento, decrementos multiplos e
//! vidas conjuntas -- respondem as mesmas consultas sobre um vetor de
//! duracoes de entrada, uma por decremento e por vida. O traco declara os
//! contratos uma vez, sobre as funcoes de modelo de cada tipo.

use crate::duracao::DuracaoEstendida;
use crate::periodicidade::Periodicidade;
use crate::taxa::{produto, produto_espec, Taxa};
use vstd::prelude::*;

verus! {

/// O vetor de duracoes de entrada e compativel com o numero de
/// decrementos e de vidas da tabua?
pub fn validar_idades_tabuas(x: &Vec<u16>, numero_decrementos: usize, numero_vidas: usize) -> (r:
    bool)
    ensures
        r <==> (x@.len() == numero_decrementos * numero_vidas),
{
    let comprimento = x.len();
    match numero_decrementos.checked_mul(numero_vidas) {
        Some(p) => comprimento == p,
        None => false,
    }
}

/// Consultas de sobrevivencia de uma tabua, qualquer que seja a sua
/// composicao. As funcoes de modelo dizem, por tipo, o que cada consulta
/// devolve; `x` traz uma duracao de entrada por decremento e por vida.
pub trait TabuaInterface: Sized {
    /// Modelo da periodicidade da tabua.
    spec fn periodicidade_espec(&self) -> Periodicidade;

    /// Modelo do numero de decrementos.
    spec fn decrementos_espec(&self) -> int;

    /// Modelo do numero de vidas.
    spec fn vidas_espec(&self) -> int;

    /// Modelo do tempo futuro maximo.
    spec fn tempo_futuro_modelo(&self, x: Seq<u16>) -> DuracaoEstendida;

    /// Modelo da probabilidade de decremento no periodo `x + t`.
    spec fn qx_modelo(&self, x: Seq<u16>, t: u16) -> int;

    /// Modelo da probabilidade de sobrevivencia por `t` periodos.
    spec fn tpx_modelo(&self, x: Seq<u16>, t: u16) -> int;

    /// A periodicidade da tabua.
    fn periodicidade(&self) -> (r: Periodicidade)
        ensures
            r == self.periodicidade_espec(),
    ;

    /// Quantos decrementos a tabua combina.
    fn numero_decrementos(&self) -> (r: usize)
        ensures
            r == self.decrementos_espec(),
    ;

    /// Quantas vidas a tabua combina.
    fn numero_vidas(&self) -> (r: usize)
        ensures
            r == self.vidas_espec(),
    ;

    /// Tempo futuro maximo do conjunto a partir das duracoes `x`.
    fn tempo_futuro_maximo(&self, x: &Vec<u16>) -> (r: DuracaoEstendida)
        requires
            x@.len() == self.decrementos_espec() * self.vidas_espec(),
        ensures
            r == self.tempo_futuro_modelo(x@),
    ;

    /// Probabilidade de decremento no periodo `x + t`.
    fn qx(&self, x: &Vec<u16>, t: u16) -> (r: Taxa)
        requires
            x@.len() == self.decrementos_espec() * self.vidas_espec(),
        ensures
            r.ver() == self.qx_modelo(x@, t),
    ;

    /// Probabilidade de sobreviver `t` periodos alem das duracoes `x`.
    fn tpx(&self, x: &Vec<u16>, t: u16) -> (r: Taxa)
        requires
            x@.len() == self.decrementos_espec() * self.vidas_espec(),
        ensures
            r.ver() == self.tpx_modelo(x@, t),
    ;

    /// Probabilidade de decremento exatamente no periodo `x + t`: a taxa
    /// dali vezes a probabilidade de chegar vivo ali.
    fn t_qx(&self, x: &Vec<u16>, t: u16) -> (r: Taxa)
        requires
            x@.len() == self.decrementos_espec() * self.vidas_espec(),
        ensures
            r.ver() == produto_espec(self.qx_modelo(x@, t), self.tpx_modelo(x@, t)),
    {
        produto(self.qx(x, t), self.tpx(x, t))
    }
}

} // verus!
