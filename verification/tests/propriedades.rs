use tabatu::alterar::alterar_periodicidade;
use tabatu::interface::validar_idades_tabuas;
use tabatu::taxa::{complemento, potencia, produto, raiz, soma_limitada, UM};
use tabatu::DuracaoEstendida::{Finita, Infinita};
use tabatu::{
    Periodicidade, StatusVidasConjuntas, Tabua, TabuaBase, TabuaInterface, TabuaMultiplasVidas,
    TabuaMDT, Taxa,
};

fn taxa_prop(v: u64) -> Taxa {
    Taxa::nova(v * 1_000_000)
}

#[test]
fn potencia_e_raiz_tem_valores_exatos() {
    assert_eq!(potencia(taxa_prop(900), 2), Taxa::nova(810_000_000));
    assert_eq!(potencia(taxa_prop(1000), 5), taxa_prop(1000));
    assert_eq!(potencia(taxa_prop(0), 3), taxa_prop(0));
    assert_eq!(raiz(Taxa::nova(810_000_000), 2), taxa_prop(900));
    assert_eq!(raiz(taxa_prop(1000), 7), taxa_prop(1000));
}

#[test]
fn soma_limitada_e_produto_tem_valores_exatos() {
    assert_eq!(soma_limitada(taxa_prop(400), taxa_prop(300)), taxa_prop(700));
    assert_eq!(soma_limitada(taxa_prop(800), taxa_prop(700)), taxa_prop(1000));
    assert_eq!(produto(taxa_prop(500), taxa_prop(500)), taxa_prop(250));
    assert_eq!(complemento(taxa_prop(300)), taxa_prop(700));
}

#[test]
fn duracao_estendida_ordena_com_infinito_no_topo() {
    assert!(Finita(3).menor_igual(Finita(5)));
    assert!(!Finita(5).menor_igual(Finita(3)));
    assert!(Finita(65535).menor_igual(Infinita));
    assert!(!Infinita.menor_igual(Finita(65535)));
    assert!(Infinita.menor_igual(Infinita));
    assert_eq!(Finita(3).minimo(Infinita), Finita(3));
    assert_eq!(Finita(3).maximo(Infinita), Infinita);
    assert_eq!(Infinita.valor_finito(), None);
    assert_eq!(Finita(7).valor_finito(), Some(7));
    assert!(Infinita.eh_infinita());
    assert!(!Finita(0).eh_infinita());
}

#[test]
fn validar_idades_aceita_somente_o_comprimento_esperado() {
    assert!(validar_idades_tabuas(&vec![3], 1, 1));
    assert!(!validar_idades_tabuas(&vec![3, 4], 1, 1));
    assert!(validar_idades_tabuas(&vec![3, 4], 2, 1));
    assert!(validar_idades_tabuas(&vec![3, 4, 5, 6], 2, 2));
    assert!(!validar_idades_tabuas(&vec![], 1, 1));
}

#[test]
fn ida_e_volta_de_periodicidade_reproduz_as_taxas() {
    let qx_original = vec![taxa_prop(100), taxa_prop(500), taxa_prop(700), taxa_prop(1000)];

    let ida = alterar_periodicidade(qx_original.clone(), 1, 2);
    let volta = alterar_periodicidade(ida, 2, 1);

    assert_eq!(qx_original.len(), volta.len());
    for (antes, depois) in qx_original.iter().zip(volta.iter()) {
        assert!(depois.valor() <= antes.valor());
        assert!(antes.valor() - depois.valor() <= 50_000);
        assert_eq!(
            potencia(complemento(*depois), 2),
            potencia(complemento(*antes), 2),
        );
    }
}

#[test]
fn mdt_com_uma_causa_reduz_a_tabua_unica() {
    let tabua = Tabua::new(
        vec![taxa_prop(100), taxa_prop(200), taxa_prop(400), taxa_prop(800), taxa_prop(1000)],
        Periodicidade::Anual,
    );
    let mdt = TabuaMDT::new(vec![tabua.clone()]);

    let x = vec![1];
    for t in 0..6u16 {
        assert_eq!(mdt.qx(&x, t), tabua.qx(&x, t));
        assert_eq!(mdt.tpx(&x, t), tabua.tpx(&x, t));
        assert_eq!(mdt.t_qx(&x, t), tabua.t_qx(&x, t));
    }
    assert_eq!(mdt.tempo_futuro_maximo(&x), tabua.tempo_futuro_maximo(&x));
}

#[test]
fn primeira_morte_de_duas_vidas_iguais_e_um_menos_quadrado_do_complemento() {
    let tabua = Tabua::new(
        vec![taxa_prop(0), taxa_prop(100), taxa_prop(500), taxa_prop(800), taxa_prop(1000)],
        Periodicidade::Mensal,
    );
    let conjunto = TabuaMultiplasVidas::new(
        vec![tabua.clone(), tabua.clone()],
        StatusVidasConjuntas::First,
    );

    let x = vec![0, 0];
    for t in 0..6u16 {
        let q = tabua.qx(&vec![0], t);
        assert_eq!(conjunto.qx(&x, t), complemento(potencia(complemento(q), 2)));
    }
}

#[test]
fn sobrevivencia_do_ultimo_nao_e_o_produto_das_sobrevivencias() {
    let tabua1 = Tabua::new(
        vec![taxa_prop(0), taxa_prop(100), taxa_prop(500), taxa_prop(800), taxa_prop(1000)],
        Periodicidade::Mensal,
    );
    let tabua2 = Tabua::new(
        vec![taxa_prop(0), taxa_prop(200), taxa_prop(400), taxa_prop(700), taxa_prop(800)],
        Periodicidade::Mensal,
    );
    let conjunto = TabuaMultiplasVidas::new(
        vec![tabua1.clone(), tabua2.clone()],
        StatusVidasConjuntas::Last,
    );

    let x = vec![0, 0];
    let t = 3;

    let recursivo = produto(
        produto(
            complemento(conjunto.qx(&x, 0)),
            complemento(conjunto.qx(&x, 1)),
        ),
        complemento(conjunto.qx(&x, 2)),
    );
    let ingenuo = produto(tabua1.tpx(&vec![0], t), tabua2.tpx(&vec![0], t));

    let result = conjunto.tpx(&x, t);
    assert_eq!(result, recursivo);
    assert_ne!(result, ingenuo);
}

#[test]
fn cenario_tabua_fechada() {
    let tabua = TabuaBase::new(vec![
        taxa_prop(100),
        taxa_prop(200),
        taxa_prop(400),
        taxa_prop(800),
        taxa_prop(1000),
    ]);

    assert_eq!(tabua.tempo_futuro_maximo(0), Finita(5));
    assert_eq!(tabua.tempo_futuro_maximo(4), Finita(1));
    assert_eq!(tabua.qx(0, Finita(10)), taxa_prop(1000));
}

#[test]
fn tabua_de_uma_so_taxa_certa_fecha_no_primeiro_periodo() {
    let tabua = TabuaBase::new(vec![taxa_prop(1000)]);

    assert_eq!(tabua.tempo_futuro_maximo(0), Finita(1));
    assert_eq!(tabua.tempo_futuro_maximo(1), Finita(0));
    assert_eq!(tabua.qx(0, Finita(0)), taxa_prop(1000));
    assert_eq!(tabua.tpx(0, Finita(1)), taxa_prop(0));
    assert_eq!(tabua.tpx(0, Finita(0)), taxa_prop(1000));
}

#[test]
fn taxas_depois_de_uma_certeza_interna_ainda_sao_consultaveis() {
    let tabua = TabuaBase::new(vec![taxa_prop(100), taxa_prop(1000), taxa_prop(300)]);

    assert_eq!(tabua.tempo_futuro_maximo(0), Finita(2));
    assert_eq!(tabua.qx(0, Finita(1)), taxa_prop(1000));
    assert_eq!(tabua.qx(0, Finita(10)), taxa_prop(300));
    assert_eq!(tabua.tpx(0, Finita(2)), taxa_prop(0));
}

#[test]
fn consultas_com_horizonte_infinito() {
    let plato = TabuaBase::new(vec![taxa_prop(100), taxa_prop(300), taxa_prop(500)]);
    let completa = TabuaBase::new(vec![taxa_prop(100), taxa_prop(1000)]);

    assert_eq!(plato.tpx(0, Infinita), taxa_prop(0));
    assert_eq!(plato.qx(0, Infinita), taxa_prop(500));
    assert_eq!(completa.tpx(0, Infinita), taxa_prop(0));
    assert_eq!(completa.qx(0, Infinita), taxa_prop(1000));
    assert_eq!(plato.t_qx(0, Infinita), taxa_prop(0));
}
