use citemark::metadata::metadata;

#[test]
fn euclides_da_cunha() {
    let input = r#" authors=given> Aurora Almeida de Miranda, family> Leão\par title=Euclides da Cunha atualizado no sertão da teledramaturgia\par first_page=15\par last_page=29\par abstract=O objeto deste artigo é a série \textit {Onde nascem os fortes} (TV Globo, 2018), escrita para exibição em canal aberto de televisão, em ano eleitoral e filmada no cariri paraibano. A partir do título e da ambiência, percebemos uma configuração que remete ao livro \textit {Os sertões} \citeyear {EcCUNHA1902sertoes}. Objetiva-se perscrutar como o conceito de sertão é trabalhado na obra, identificar a dialogia com o livro euclidiano e investigar o modo como as desigualdades sociais detectadas pelo escritor no início do século XX permanecem neste século XXI com impressionante atualidade. Ademais, o território sertanejo revela-se como poderoso cronotopo \cite {EcBAKHTIN2003Estetica}, em forte simetria com a linha abissal da Sociologia das Ausências \cite {EcSANTOS2004Para}. Elege-se o capítulo de estreia como evidenciador de pontos fundamentais da diegese, a partir de metodologia baseada na técnica da minutagem, através da qual analisa-se as estratégias de construção narrativa \cite {EcMOTTA2013analise}, bem como os procedimentos de elaboração do roteiro \cite {EcMACIEL2017poder}. Conclui-se que o episódio inaugural figura como síntese importante para o desenvolvimento da trama, apresentando cenas nas quais diversas percepções destacadas por Euclides da Cunha aparecem e dão pistas de como o roteiro prosseguirá, embora trazendo ressignificações para o espaço sertanejo e os personagens que o habitam. \par keywords=Onde nascem os fortes. Euclides da Cunha. Sertão. Teledramaturgia. Narrativa.\par section=Dossiê História dos Sertões: espaços, sentidos e saberes\par number=5\par semester=1\par year=2022"#.as_bytes().to_vec();

    let (_metadata, pos) = metadata(&input, 0).unwrap();

    assert!(pos == input.len());
}

#[test]
fn missing_divisor_is_a_grammar_error() {
    let input = b"title".to_vec();

    assert!(metadata(&input, 0).is_none());
}

#[test]
fn empty_author_list_is_a_grammar_error() {
    let input = b"authors=\\par".to_vec();

    assert!(metadata(&input, 0).is_none());
}

#[test]
fn unknown_leading_text_stops_without_fields() {
    let input = b"unknown=1".to_vec();

    let (m, pos) = metadata(&input, 0).unwrap();

    assert_eq!(pos, 0);
    assert!(m.title.is_none() && m.authors.is_none() && m.year.is_none());
}

#[test]
fn last_occurrence_of_a_key_wins() {
    let input = b"title=First\\par title=Second".to_vec();

    let (m, pos) = metadata(&input, 0).unwrap();

    assert!(pos == input.len());
    assert_eq!(m.title, Some(b"Second".to_vec()));
}

#[test]
fn field_order_is_free_form() {
    let forward = b"title=T\\par year=2022\\par semester=1".to_vec();
    let shuffled = b"semester=1\\par year=2022\\par title=T".to_vec();

    let (m1, p1) = metadata(&forward, 0).unwrap();
    let (m2, p2) = metadata(&shuffled, 0).unwrap();

    assert!(p1 == forward.len() && p2 == shuffled.len());
    assert_eq!(m1, m2);
}
