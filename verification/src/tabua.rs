//! Tabua de uma vida e um decremento: a tabua basica com a sua
//! periodicidade.

use crate::alterar::{alterar_espec, alterar_periodicidade};
use crate::duracao::DuracaoEstendida;
use crate::interface::TabuaInterface;
use crate::periodicidade::Periodicidade;
use crate::tabua_base::{fecho_correto, qx_espec, tempo_futuro_espec, tpx_espec, TabuaBase};
use crate::taxa::{valores, Taxa};
use vstd::arithmetic::div_mod::*;
use vstd::prelude::*;

verus! {

/// Extrai de um vetor de tabuas, todas da mesma periodicidade, as bases e
/// a periodicidade comum.
pub fn extrair_tabua_base_e_periodicidade(tabuas: Vec<Tabua>) -> (r: (
    Vec<TabuaBase>,
    Periodicidade,
))
    requires
        tabuas@.len() >= 1,
        forall|i: int| 0 <= i < tabuas@.len() ==> #[trigger] tabuas@[i].periodicidade_espec()
            == tabuas@[0].periodicidade_espec(),
    ensures
        r.0@.len() == tabuas@.len(),
        forall|i: int| 0 <= i < tabuas@.len() ==> #[trigger] r.0@[i].taxas()
            == tabuas@[i].base().taxas(),
        forall|i: int| 0 <= i < tabuas@.len() ==> #[trigger] r.0@[i].fecho()
            == tabuas@[i].base().fecho(),
        r.1 == tabuas@[0].periodicidade_espec(),
{
    let periodicidade = tabuas[0].periodicidade();
    let mut bases: Vec<TabuaBase> = Vec::new();
    let mut i: usize = 0;
    while i < tabuas.len()
        invariant
            i <= tabuas@.len(),
            bases@.len() == i,
            forall|j: int| 0 <= j < i ==> #[trigger] bases@[j].taxas()
                == tabuas@[j].base().taxas(),
            forall|j: int| 0 <= j < i ==> #[trigger] bases@[j].fecho()
                == tabuas@[j].base().fecho(),
        decreases tabuas@.len() - i,
    {
        let base = tabuas[i].obter_tabua_base().clone();
        bases.push(base);
        i = i + 1;
    }
    (bases, periodicidade)
}

/// Tabua de uma vida e um decremento, imutavel depois de construida.
#[derive(Debug)]
pub struct Tabua {
    tabua: TabuaBase,
    periodicidade: Periodicidade,
}

impl Tabua {
    /// A tabua basica por tras desta tabua.
    pub closed spec fn base(self) -> TabuaBase {
        self.tabua
    }

    /// Constroi a tabua a partir das taxas e da periodicidade.
    pub fn new(qx: Vec<Taxa>, periodicidade: Periodicidade) -> (r: Tabua)
        requires
            1 <= qx@.len() <= 65535,
        ensures
            r.base().taxas() == valores(qx@),
            fecho_correto(r.base().taxas(), r.base().fecho()),
            r.periodicidade_espec() == periodicidade,
    {
        Tabua { tabua: TabuaBase::new(qx), periodicidade }
    }

    /// A tabua basica, emprestada.
    pub fn obter_tabua_base(&self) -> (r: &TabuaBase)
        ensures
            r.taxas() == self.base().taxas(),
            r.fecho() == self.base().fecho(),
    {
        &self.tabua
    }

    /// Nova tabua com as mesmas taxas reexpressas na nova periodicidade;
    /// a razao entre as granularidades tem de ser inteira.
    pub fn alterar_periodicidade(&self, nova_periodicidade: Periodicidade) -> (r: Tabua)
        requires
            ({
                let qa = self.periodicidade_espec().quantidade_espec();
                let qn = nova_periodicidade.quantidade_espec();
                &&& (qn > qa ==> qn % qa == 0 && self.base().taxas().len() * (qn / qa) <= 65535)
                &&& (qn < qa ==> qa % qn == 0)
            }),
        ensures
            r.periodicidade_espec() == nova_periodicidade,
            r.base().taxas() == alterar_espec(
                self.base().taxas(),
                self.periodicidade_espec().quantidade_espec(),
                nova_periodicidade.quantidade_espec(),
            ),
            fecho_correto(r.base().taxas(), r.base().fecho()),
    {
        let atual: usize = self.periodicidade.quantidade_periodos_1_ano() as usize;
        let nova: usize = nova_periodicidade.quantidade_periodos_1_ano() as usize;
        let qx = self.tabua.obter_taxas();
        let ghost antes = valores(qx@);
        let novo = alterar_periodicidade(qx, atual, nova);
        proof {
            let f = nova as int / atual as int;
            let g = atual as int / nova as int;
            assert(atual as int == self.periodicidade_espec().quantidade_espec());
            assert(nova as int == nova_periodicidade.quantidade_espec());
            assert(antes == self.base().taxas());
            assert(valores(novo@) == alterar_espec(antes, atual as int, nova as int));
            assert(novo@.len() == valores(novo@).len());
            if nova == atual {
                assert(novo@.len() == antes.len());
            }
            if nova > atual {
                assert(novo@.len() == antes.len() * f);
            }
            if nova < atual {
                assert(novo@.len() == (antes.len() + g - 1) / g);
            }
            if nova > atual {
                assert(1 <= f) by {
                    lemma_div_is_ordered(atual as int, nova as int, atual as int);
                    lemma_div_by_self(atual as int);
                }
                assert(antes.len() * f >= 1) by (nonlinear_arith)
                    requires antes.len() >= 1 && f >= 1;
            }
            if nova < atual {
                assert(1 <= g <= 12) by {
                    lemma_div_is_ordered(nova as int, atual as int, nova as int);
                    lemma_div_by_self(nova as int);
                    lemma_div_is_ordered(atual as int, 12, nova as int);
                    lemma_div_nonincreasing(atual as int, nova as int);
                }
                let m = antes.len() + g - 1;
                assert(m / g >= 1) by {
                    lemma_div_is_ordered(g, m, g);
                    lemma_div_by_self(g);
                }
                assert(m <= g * antes.len()) by (nonlinear_arith)
                    requires antes.len() >= 1 && g >= 1 && m == antes.len() + g - 1;
                assert(m / g <= antes.len()) by {
                    lemma_multiply_divide_le(m, g, antes.len() as int);
                }
            }
        }
        Tabua::new(novo, nova_periodicidade)
    }
}

impl Clone for Tabua {
    /// A copia preserva a base e a periodicidade, e com elas toda
    /// consulta.
    fn clone(&self) -> (r: Self)
        ensures
            r.base().taxas() == self.base().taxas(),
            r.base().fecho() == self.base().fecho(),
            r.periodicidade_espec() == self.periodicidade_espec(),
    {
        Tabua { tabua: self.tabua.clone(), periodicidade: self.periodicidade }
    }
}

impl TabuaInterface for Tabua {
    closed spec fn periodicidade_espec(&self) -> Periodicidade {
        self.periodicidade
    }

    open spec fn decrementos_espec(&self) -> int {
        1
    }

    open spec fn vidas_espec(&self) -> int {
        1
    }

    open spec fn tempo_futuro_modelo(&self, x: Seq<u16>) -> DuracaoEstendida {
        tempo_futuro_espec(self.base().fecho(), x[0] as int)
    }

    open spec fn qx_modelo(&self, x: Seq<u16>, t: u16) -> int {
        qx_espec(self.base().taxas(), self.base().fecho(), x[0] as int, DuracaoEstendida::Finita(t))
    }

    open spec fn tpx_modelo(&self, x: Seq<u16>, t: u16) -> int {
        tpx_espec(
            self.base().taxas(),
            self.base().fecho(),
            x[0] as int,
            DuracaoEstendida::Finita(t),
        )
    }

    fn periodicidade(&self) -> (r: Periodicidade) {
        self.periodicidade
    }

    fn numero_decrementos(&self) -> (r: usize) {
        1
    }

    fn numero_vidas(&self) -> (r: usize) {
        1
    }

    fn tempo_futuro_maximo(&self, x: &Vec<u16>) -> (r: DuracaoEstendida) {
        self.tabua.tempo_futuro_maximo(x[0])
    }

    fn qx(&self, x: &Vec<u16>, t: u16) -> (r: Taxa) {
        self.tabua.qx(x[0], DuracaoEstendida::Finita(t))
    }

    fn tpx(&self, x: &Vec<u16>, t: u16) -> (r: Taxa) {
        self.tabua.tpx(x[0], DuracaoEstendida::Finita(t))
    }
}

} // verus!
