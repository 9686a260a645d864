//! Tabua de decrementos multiplos: uma a tres tabuas independentes,
//! alinhadas por duracao, combinadas num modelo de causas concorrentes.
//!
//! A taxa dependente de cada causa sai da identidade atuarial
//! `qx_j = q_j * (1 - (q_a + q_b)/2 + (q_a * q_b)/3)`, em que `q_a` e
//! `q_b` sao as taxas das outras causas em ordem ciclica e uma causa
//! ausente contribui com taxa zero.

use crate::duracao::DuracaoEstendida;
use crate::interface::TabuaInterface;
use crate::periodicidade::Periodicidade;
use crate::tabua::{extrair_tabua_base_e_periodicidade, Tabua};
use crate::tabua_base::{
    bases_validas, base_valida, lei_qx_limites, produto_tpx_espec, qx_base, tempo_minimo_espec,
    tpx_base, TabuaBase,
};
use crate::taxa::{
    lei_produto_limites, lei_produto_um, produto, produto_espec, soma_limitada,
    soma_limitada_espec, valores, Taxa, UM,
};
use vstd::arithmetic::div_mod::*;
use vstd::arithmetic::mul::*;
use vstd::prelude::*;

verus! {

/// Taxa dependente da primeira causa entre tres causas concorrentes.
pub open spec fn qxj_espec(q1: int, q2: int, q3: int) -> int {
    produto_espec(q1, (UM as int) - (q2 + q3) / 2 + produto_espec(q2, q3) / 3)
}

/// A taxa da posicao `i` de uma sequencia, com zero nas posicoes que a
/// sequencia nao tem (causas ausentes).
pub open spec fn componente(qs: Seq<int>, i: int) -> int {
    if 0 <= i < qs.len() {
        qs[i]
    } else {
        0int
    }
}

/// As taxas de cada tabua do conjunto no periodo `x + t`.
pub open spec fn taxas_no_periodo(bases: Seq<TabuaBase>, x: Seq<u16>, t: u16) -> Seq<int> {
    Seq::new(bases.len(), |k: int| qx_base(bases[k], x[k] as int, DuracaoEstendida::Finita(t)))
}

/// Taxa dependente da causa `j` do conjunto no periodo `x + t`.
pub open spec fn qxj_mdt_espec(bases: Seq<TabuaBase>, x: Seq<u16>, t: u16, j: int) -> int {
    let qs = taxas_no_periodo(bases, x, t);
    qxj_espec(componente(qs, j), componente(qs, (j + 1) % 3), componente(qs, (j + 2) % 3))
}

/// Soma, limitada pela certeza, das taxas dependentes das `j` primeiras
/// causas.
pub open spec fn soma_qxj_espec(bases: Seq<TabuaBase>, x: Seq<u16>, t: u16, j: nat) -> int
    decreases j,
{
    if j == 0 {
        0int
    } else {
        soma_limitada_espec(
            soma_qxj_espec(bases, x, t, (j - 1) as nat),
            qxj_mdt_espec(bases, x, t, j - 1),
        )
    }
}

/// Soma plana, sem teto, das taxas dependentes das `j` primeiras causas.
pub open spec fn soma_plana_qxj_espec(bases: Seq<TabuaBase>, x: Seq<u16>, t: u16, j: nat) -> int
    decreases j,
{
    if j == 0 {
        0int
    } else {
        soma_plana_qxj_espec(bases, x, t, (j - 1) as nat) + qxj_mdt_espec(bases, x, t, j - 1)
    }
}

/// Toda taxa dependente de causa e uma taxa valida.
pub proof fn lei_qxj_limites(bases: Seq<TabuaBase>, x: Seq<u16>, t: u16, j: int)
    requires
        bases_validas(bases),
        bases.len() <= x.len(),
    ensures
        0 <= qxj_mdt_espec(bases, x, t, j) <= UM,
{
    let qs = taxas_no_periodo(bases, x, t);
    assert(0 <= componente(qs, j) <= UM) by {
        if 0 <= j < qs.len() {
            lei_qx_limites(bases[j].taxas(), bases[j].fecho(), x[j] as int, DuracaoEstendida::Finita(t));
        }
    }
    let a = (j + 1) % 3;
    let b = (j + 2) % 3;
    assert(0 <= componente(qs, a) <= UM) by {
        if 0 <= a < qs.len() {
            lei_qx_limites(bases[a].taxas(), bases[a].fecho(), x[a] as int, DuracaoEstendida::Finita(t));
        }
    }
    assert(0 <= componente(qs, b) <= UM) by {
        if 0 <= b < qs.len() {
            lei_qx_limites(bases[b].taxas(), bases[b].fecho(), x[b] as int, DuracaoEstendida::Finita(t));
        }
    }
    lei_fator_qxj(componente(qs, a), componente(qs, b));
    lei_produto_limites(
        componente(qs, j),
        (UM as int) - (componente(qs, a) + componente(qs, b)) / 2 + produto_espec(
            componente(qs, a),
            componente(qs, b),
        ) / 3,
    );
}

/// Enquanto a soma plana das parcelas cabe na certeza, a soma limitada
/// coincide com ela: o teto da soma nao chega a agir, e o total do
/// conjunto e a soma simples das causas, como na algebra de decrementos
/// multiplos.
pub proof fn lei_soma_qxj_sem_teto(bases: Seq<TabuaBase>, x: Seq<u16>, t: u16, j: nat)
    requires
        bases_validas(bases),
        bases.len() <= x.len(),
        soma_plana_qxj_espec(bases, x, t, j) <= UM,
    ensures
        soma_qxj_espec(bases, x, t, j) == soma_plana_qxj_espec(bases, x, t, j),
    decreases j,
{
    if j > 0 {
        lei_qxj_limites(bases, x, t, j - 1);
        lei_soma_qxj_sem_teto(bases, x, t, (j - 1) as nat);
    }
}

/// O fator comum da identidade de causas concorrentes e uma taxa valida,
/// e com as outras causas nulas ele e a certeza.
pub proof fn lei_fator_qxj(q2: int, q3: int)
    requires
        0 <= q2 <= UM,
        0 <= q3 <= UM,
    ensures
        0 <= (UM as int) - (q2 + q3) / 2 + produto_espec(q2, q3) / 3 <= UM,
        q2 == 0 && q3 == 0 ==> (UM as int) - (q2 + q3) / 2 + produto_espec(q2, q3) / 3 == UM,
{
    let menor = if q2 <= q3 {
        q2
    } else {
        q3
    };
    lei_produto_limites(q2, q3);
    let metade = (q2 + q3) / 2;
    let terco = produto_espec(q2, q3) / 3;
    assert(metade >= menor) by {
        lemma_div_multiples_vanish(menor, 2);
        lemma_div_is_ordered(2 * menor, q2 + q3, 2);
    }
    assert(metade <= UM) by {
        lemma_div_multiples_vanish(UM as int, 2);
        lemma_div_is_ordered(q2 + q3, 2 * (UM as int), 2);
    }
    assert(terco <= produto_espec(q2, q3)) by {
        lemma_div_nonincreasing(produto_espec(q2, q3), 3);
    }
    assert(terco >= 0) by {
        lemma_div_pos_is_pos(produto_espec(q2, q3), 3);
    }
    if q2 == 0 && q3 == 0 {
        crate::taxa::lei_produto_zero(0);
        assert((0int + 0) / 2 == 0);
        assert(0int / 3 == 0);
    }
}

/// Taxa dependente de uma causa, dadas as tres taxas das causas (zero
/// para uma causa ausente).
pub fn qx2qxj(qx1: Taxa, qx2: Taxa, qx3: Taxa) -> (r: Taxa)
    ensures
        r.ver() == qxj_espec(qx1.ver(), qx2.ver(), qx3.ver()),
{
    qx1.limites();
    qx2.limites();
    qx3.limites();
    proof {
        lei_fator_qxj(qx2.ver(), qx3.ver());
    }
    let metade: u64 = (qx2.valor() + qx3.valor()) / 2;
    let terco: u64 = produto(qx2, qx3).valor() / 3;
    let fator: u64 = UM - metade + terco;
    produto(qx1, Taxa::nova(fator))
}

/// Converte as taxas independentes de uma a tres causas nas tres taxas
/// dependentes, em ordem ciclica, com zero nas causas ausentes.
pub fn converter_mdt(qx: Vec<Taxa>) -> (r: Vec<Taxa>)
    requires
        1 <= qx@.len() <= 3,
    ensures
        r@.len() == 3,
        valores(r@)[0] == qxj_espec(
            componente(valores(qx@), 0),
            componente(valores(qx@), 1),
            componente(valores(qx@), 2),
        ),
        valores(r@)[1] == qxj_espec(
            componente(valores(qx@), 1),
            componente(valores(qx@), 2),
            componente(valores(qx@), 0),
        ),
        valores(r@)[2] == qxj_espec(
            componente(valores(qx@), 2),
            componente(valores(qx@), 0),
            componente(valores(qx@), 1),
        ),
{
    let zero = Taxa::nova(0);
    let g0 = qx[0];
    let g1 = if qx.len() > 1 {
        qx[1]
    } else {
        zero
    };
    let g2 = if qx.len() > 2 {
        qx[2]
    } else {
        zero
    };
    proof {
        assert(valores(qx@)[0] == qx@[0].ver());
        if qx@.len() > 1 {
            assert(valores(qx@)[1] == qx@[1].ver());
        }
        if qx@.len() > 2 {
            assert(valores(qx@)[2] == qx@[2].ver());
        }
    }
    let mut r: Vec<Taxa> = Vec::new();
    r.push(qx2qxj(g0, g1, g2));
    r.push(qx2qxj(g1, g2, g0));
    r.push(qx2qxj(g2, g0, g1));
    r
}

/// Tabua de decrementos multiplos, imutavel depois de construida.
#[derive(Debug)]
pub struct TabuaMDT {
    tabuas: Vec<TabuaBase>,
    periodicidade: Periodicidade,
}

impl TabuaMDT {
    /// As bases das causas, em ordem.
    pub closed spec fn bases(self) -> Seq<TabuaBase> {
        self.tabuas@
    }

    #[verifier::type_invariant]
    closed spec fn bem_formada(self) -> bool {
        1 <= self.tabuas@.len() <= 3
    }

    /// Combina uma a tres tabuas de mesma periodicidade num modelo de
    /// decrementos multiplos.
    pub fn new(tabuas: Vec<Tabua>) -> (r: TabuaMDT)
        requires
            1 <= tabuas@.len() <= 3,
            forall|i: int| 0 <= i < tabuas@.len() ==> #[trigger] tabuas@[i].periodicidade_espec()
                == tabuas@[0].periodicidade_espec(),
        ensures
            r.bases().len() == tabuas@.len(),
            forall|i: int| 0 <= i < tabuas@.len() ==> #[trigger] r.bases()[i].taxas()
                == tabuas@[i].base().taxas(),
            forall|i: int| 0 <= i < tabuas@.len() ==> #[trigger] r.bases()[i].fecho()
                == tabuas@[i].base().fecho(),
            r.periodicidade_espec() == tabuas@[0].periodicidade_espec(),
    {
        let (bases, periodicidade) = extrair_tabua_base_e_periodicidade(tabuas);
        TabuaMDT { tabuas: bases, periodicidade }
    }

    /// Fatos estruturais garantidos de todo conjunto construido.
    pub fn estrutura(&self)
        ensures
            1 <= self.bases().len() <= 3,
            bases_validas(self.bases()),
    {
        proof {
            use_type_invariant(&*self);
        }
        let mut k: usize = 0;
        while k < self.tabuas.len()
            invariant
                k <= self.tabuas@.len(),
                forall|i: int| 0 <= i < k ==> base_valida(#[trigger] self.tabuas@[i]),
            decreases self.tabuas@.len() - k,
        {
            self.tabuas[k].estrutura();
            k = k + 1;
        }
    }

    /// Probabilidade de decremento pela causa `j` no periodo `x + t`,
    /// dadas as duracoes de entrada `x`, uma por causa.
    pub fn qx_j(&self, x: &Vec<u16>, t: u16, j: usize) -> (r: Taxa)
        requires
            x@.len() == self.bases().len(),
            j < 3,
        ensures
            r.ver() == qxj_mdt_espec(self.bases(), x@, t, j as int),
    {
        proof {
            use_type_invariant(&*self);
        }
        let mut qs: Vec<Taxa> = Vec::new();
        let mut k: usize = 0;
        while k < self.tabuas.len()
            invariant
                x@.len() == self.tabuas@.len(),
                k <= self.tabuas@.len(),
                qs@.len() == k,
                forall|i: int| 0 <= i < k ==> valores(qs@)[i] == taxas_no_periodo(
                    self.bases(),
                    x@,
                    t,
                )[i],
            decreases self.tabuas@.len() - k,
        {
            let q = self.tabuas[k].qx(x[k], DuracaoEstendida::Finita(t));
            let ghost antes = qs@;
            qs.push(q);
            proof {
                assert forall|i: int| 0 <= i < k + 1 implies valores(qs@)[i] == taxas_no_periodo(
                    self.bases(),
                    x@,
                    t,
                )[i] by {
                    if i < k {
                        assert(qs@[i] == antes[i]);
                        assert(valores(antes)[i] == taxas_no_periodo(self.bases(), x@, t)[i]);
                    } else {
                        assert(qs@[i] == q);
                        assert(taxas_no_periodo(self.bases(), x@, t)[i] == qx_base(
                            self.bases()[i],
                            x@[i] as int,
                            DuracaoEstendida::Finita(t),
                        ));
                    }
                }
            }
            k = k + 1;
        }
        proof {
            assert(valores(qs@) =~= taxas_no_periodo(self.bases(), x@, t));
        }
        let dependentes = converter_mdt(qs);
        let r = dependentes[j];
        proof {
            let qsv = taxas_no_periodo(self.bases(), x@, t);
            assert(valores(dependentes@)[j as int] == r.ver());
            if j == 0 {
                assert((0int + 1) % 3 == 1 && (0int + 2) % 3 == 2);
            } else if j == 1 {
                assert((1int + 1) % 3 == 2 && (1int + 2) % 3 == 0);
            } else {
                assert((2int + 1) % 3 == 0 && (2int + 2) % 3 == 1);
            }
        }
        r
    }
}

impl TabuaInterface for TabuaMDT {
    closed spec fn periodicidade_espec(&self) -> Periodicidade {
        self.periodicidade
    }

    open spec fn decrementos_espec(&self) -> int {
        self.bases().len() as int
    }

    open spec fn vidas_espec(&self) -> int {
        1
    }

    open spec fn tempo_futuro_modelo(&self, x: Seq<u16>) -> DuracaoEstendida {
        tempo_minimo_espec(self.bases(), x, self.bases().len())
    }

    open spec fn qx_modelo(&self, x: Seq<u16>, t: u16) -> int {
        soma_qxj_espec(self.bases(), x, t, self.bases().len())
    }

    open spec fn tpx_modelo(&self, x: Seq<u16>, t: u16) -> int {
        produto_tpx_espec(self.bases(), x, t, self.bases().len())
    }

    fn periodicidade(&self) -> (r: Periodicidade) {
        self.periodicidade
    }

    fn numero_decrementos(&self) -> (r: usize) {
        proof {
            use_type_invariant(&*self);
        }
        self.tabuas.len()
    }

    fn numero_vidas(&self) -> (r: usize) {
        1
    }

    /// O tempo futuro maximo do conjunto: o menor entre as causas.
    fn tempo_futuro_maximo(&self, x: &Vec<u16>) -> (r: DuracaoEstendida) {
        proof {
            use_type_invariant(&*self);
        }
        let mut r = self.tabuas[0].tempo_futuro_maximo(x[0]);
        let mut k: usize = 1;
        while k < self.tabuas.len()
            invariant
                x@.len() == self.tabuas@.len(),
                1 <= k <= self.tabuas@.len(),
                r == tempo_minimo_espec(self.bases(), x@, k as nat),
            decreases self.tabuas@.len() - k,
        {
            let proximo = self.tabuas[k].tempo_futuro_maximo(x[k]);
            r = r.minimo(proximo);
            k = k + 1;
        }
        r
    }

    /// A probabilidade total de decremento: a soma das causas, limitada
    /// pela certeza.
    fn qx(&self, x: &Vec<u16>, t: u16) -> (r: Taxa) {
        proof {
            use_type_invariant(&*self);
        }
        let mut acc = Taxa::nova(0);
        let mut j: usize = 0;
        while j < self.tabuas.len()
            invariant
                x@.len() == self.tabuas@.len(),
                self.tabuas@.len() <= 3,
                j <= self.tabuas@.len(),
                acc.ver() == soma_qxj_espec(self.bases(), x@, t, j as nat),
            decreases self.tabuas@.len() - j,
        {
            let parcela = self.qx_j(x, t, j);
            acc = soma_limitada(acc, parcela);
            j = j + 1;
        }
        acc
    }

    /// A sobrevivencia do conjunto: o produto das sobrevivencias das
    /// causas, supostas independentes.
    fn tpx(&self, x: &Vec<u16>, t: u16) -> (r: Taxa) {
        proof {
            use_type_invariant(&*self);
        }
        let mut acc = Taxa::nova(UM);
        let mut k: usize = 0;
        while k < self.tabuas.len()
            invariant
                x@.len() == self.tabuas@.len(),
                k <= self.tabuas@.len(),
                acc.ver() == produto_tpx_espec(self.bases(), x@, t, k as nat),
            decreases self.tabuas@.len() - k,
        {
            let parcela = self.tabuas[k].tpx(x[k], DuracaoEstendida::Finita(t));
            acc = produto(acc, parcela);
            k = k + 1;
        }
        acc
    }
}

/// Lei: com uma unica causa o conjunto reduz-se a propria tabua; a
/// probabilidade total de decremento e a taxa da tabua e a sobrevivencia
/// do conjunto e a da tabua.
pub proof fn lei_mdt_uma_causa(bases: Seq<TabuaBase>, x: Seq<u16>, t: u16)
    requires
        bases.len() == 1,
        x.len() == 1,
        base_valida(bases[0]),
    ensures
        soma_qxj_espec(bases, x, t, 1) == qx_base(bases[0], x[0] as int, DuracaoEstendida::Finita(t)),
        produto_tpx_espec(bases, x, t, 1) == tpx_base(
            bases[0],
            x[0] as int,
            DuracaoEstendida::Finita(t),
        ),
{
    let q = qx_base(bases[0], x[0] as int, DuracaoEstendida::Finita(t));
    let p = tpx_base(bases[0], x[0] as int, DuracaoEstendida::Finita(t));
    lei_qx_limites(bases[0].taxas(), bases[0].fecho(), x[0] as int, DuracaoEstendida::Finita(t));
    crate::tabua_base::lei_tpx_limites(
        bases[0].taxas(),
        bases[0].fecho(),
        x[0] as int,
        DuracaoEstendida::Finita(t),
    );
    let qs = taxas_no_periodo(bases, x, t);
    assert(qs[0] == q);
    assert(componente(qs, 1) == 0 && componente(qs, 2) == 0);
    assert((0int + 1) % 3 == 1 && (0int + 2) % 3 == 2);
    lei_fator_qxj(0, 0);
    lei_produto_um(q);
    assert(qxj_mdt_espec(bases, x, t, 0) == q);
    assert(soma_qxj_espec(bases, x, t, 0) == 0);
    assert(soma_qxj_espec(bases, x, t, 1) == soma_limitada_espec(0, q));
    lei_produto_um(p);
    assert(produto_tpx_espec(bases, x, t, 0) == UM);
    assert(produto_tpx_espec(bases, x, t, 1) == produto_espec(UM as int, p));
}

} // verus!
